use dns_resolver::cache::{DnsCache, DnsQuery};
use dns_resolver::enums::{MessageType, OpCode, ResponseCode};
use dns_resolver::errors::DnsValidation;
use dns_resolver::message::Message;
use dns_resolver::parser::DnsParser;
use dns_resolver::query::create_query;
use dns_resolver::service::{DnsQueryError, DnsService, LookupStep};
use dns_resolver::traits::Serializable;

/// A reply for the queried name with one type-A answer, the answer
/// name compressed as a pointer to the question.
fn reply_bytes(id: u16, rcode: u8, ttl: u32) -> Vec<u8> {
    let mut buf = Vec::new();
    buf.extend_from_slice(&[(id >> 8) as u8, (id & 0xFF) as u8]);
    buf.extend_from_slice(&[0x81, 0x80 | rcode]);
    buf.extend_from_slice(&[0, 1, 0, 1, 0, 0, 0, 0]);
    buf.extend_from_slice(b"\x06google\x03com\x00");
    buf.extend_from_slice(&[0, 1, 0, 1]);
    buf.extend_from_slice(&[0xC0, 0x0C]);
    buf.extend_from_slice(&[0, 1, 0, 1]);
    buf.extend_from_slice(&ttl.to_be_bytes());
    buf.extend_from_slice(&[0, 4, 8, 8, 8, 8]);
    buf
}

fn message_with_ttl(ttl: u32) -> Message {
    let parser = DnsParser {};
    parser.parse_message(reply_bytes(1, 0, ttl)).unwrap()
}

#[test]
fn cache_returns_entry_with_positive_ttl() {
    let mut cache = DnsCache::new();
    let msg = message_with_ttl(300);
    let entry = DnsQuery {
        dns_name: "x".to_string(),
        message: msg,
    };
    cache.set("x", &entry);
    let got = cache.get(&"x".to_string()).expect("entry should be returned");
    assert_eq!(got.dns_name, "x");
    assert_eq!(got.message.answers[0].ttl, 300);
}

#[test]
fn cache_withholds_entry_with_zero_ttl() {
    let mut cache = DnsCache::new();
    let msg = message_with_ttl(0);
    let entry = DnsQuery {
        dns_name: "y".to_string(),
        message: msg,
    };
    cache.set("y", &entry);
    assert!(cache.get(&"y".to_string()).is_none());
}

#[test]
fn cache_misses_unknown_name() {
    let cache = DnsCache::new();
    assert!(cache.get(&"nowhere.example".to_string()).is_none());
}

#[test]
fn cache_overwrites_prior_entry() {
    let mut cache = DnsCache::new();
    let first = DnsQuery {
        dns_name: "x".to_string(),
        message: message_with_ttl(100),
    };
    let second = DnsQuery {
        dns_name: "x".to_string(),
        message: message_with_ttl(200),
    };
    cache.set("x", &first);
    cache.set("x", &second);
    let got = cache.get(&"x".to_string()).unwrap();
    assert_eq!(got.message.answers[0].ttl, 200);
}

#[test]
fn create_query_builds_canonical_query() {
    let msg = create_query(&"google.com".to_string()).unwrap();
    assert_eq!(msg.header.message_type, MessageType::Query);
    assert_eq!(msg.header.op_code, OpCode::Query);
    assert!(msg.header.recursion_desired);
    assert!(!msg.header.recursion_available);
    assert!(!msg.header.authoritative_answer);
    assert!(!msg.header.truncated);
    assert!(!msg.header.z);
    assert_eq!(msg.header.response_code, ResponseCode::NoError);
    assert_eq!(msg.header.questions, 1);
    assert_eq!(msg.header.answers, 0);
    assert_eq!(msg.questions.len(), 1);
    assert_eq!(msg.questions[0].name, b"\x06google\x03com\x00".to_vec());
    assert_eq!(msg.questions[0].qtype, 1);
    assert_eq!(msg.questions[0].qclass, 1);
    assert!(msg.answers.is_empty());
}

#[test]
fn create_query_rejects_overlong_name() {
    let name = "google.com".repeat(100);
    assert!(matches!(
        create_query(&name),
        Err(DnsValidation::InvalidTotalLength)
    ));
}

#[test]
fn serialized_query_is_header_plus_question() {
    let msg = create_query(&"google.com".to_string()).unwrap();
    let bytes = msg.serialize();
    // 12 header bytes, then the encoded name and the two u16 fields
    assert_eq!(bytes.len(), 12 + 12 + 4);
    assert_eq!(&bytes[12..24], b"\x06google\x03com\x00");
    assert_eq!(&bytes[24..28], &[0, 1, 0, 1]);
}

/// A transport fake that counts how often it is asked to send or
/// receive; a lookup answered from the cache must leave both at zero.
struct RecordingTransport {
    sends: usize,
    recvs: usize,
    reply: Vec<u8>,
}

impl RecordingTransport {
    fn exchange(&mut self, _datagram: &[u8]) -> Vec<u8> {
        self.sends += 1;
        self.recvs += 1;
        self.reply.clone()
    }
}

/// Drives a whole lookup the way a caller would: begin, transmit on
/// request, complete with the reply.
fn lookup_via(
    service: &mut DnsService,
    transport: &mut RecordingTransport,
    name: &String,
) -> Result<Message, DnsQueryError> {
    match service.begin_lookup(name)? {
        LookupStep::Resolved(m) => Ok(m),
        LookupStep::Transmit(datagram) => {
            let reply = transport.exchange(&datagram);
            service.complete_lookup(name, reply)
        }
    }
}

#[test]
fn lookup_on_cached_entry_never_touches_transport() {
    let name = "google.com".to_string();
    let mut cache = DnsCache::new();
    let entry = DnsQuery {
        dns_name: name.clone(),
        message: message_with_ttl(300),
    };
    cache.set(&name, &entry);
    let mut service = DnsService::new(cache);
    let mut transport = RecordingTransport {
        sends: 0,
        recvs: 0,
        reply: reply_bytes(1, 0, 300),
    };
    let msg = lookup_via(&mut service, &mut transport, &name).unwrap();
    assert_eq!(msg.answers[0].ttl, 300);
    assert_eq!(transport.sends, 0);
    assert_eq!(transport.recvs, 0);
}

#[test]
fn lookup_on_miss_transmits_once_and_caches_answer() {
    let name = "google.com".to_string();
    let mut service = DnsService::new(DnsCache::new());
    let mut transport = RecordingTransport {
        sends: 0,
        recvs: 0,
        reply: reply_bytes(1, 0, 300),
    };
    let msg = lookup_via(&mut service, &mut transport, &name).unwrap();
    assert_eq!(transport.sends, 1);
    assert_eq!(transport.recvs, 1);
    assert_eq!(msg.answers.len(), 1);
    // the answer is now cached: a second lookup does no I/O
    let again = lookup_via(&mut service, &mut transport, &name).unwrap();
    assert_eq!(transport.sends, 1);
    assert_eq!(transport.recvs, 1);
    assert_eq!(again.answers[0].ttl, 300);
}

#[test]
fn server_failure_reply_yields_response_error_and_no_cache_entry() {
    let name = "google.com".to_string();
    let mut service = DnsService::new(DnsCache::new());
    let mut transport = RecordingTransport {
        sends: 0,
        recvs: 0,
        reply: reply_bytes(1, 2, 300), // rcode 2: ServerFailure
    };
    let res = lookup_via(&mut service, &mut transport, &name);
    assert!(matches!(
        res,
        Err(DnsQueryError::ResponseError(ResponseCode::ServerFailure))
    ));
    assert!(service.dns_cache.get(&name).is_none());
}

#[test]
fn truncated_reply_yields_decode_error() {
    let name = "google.com".to_string();
    let mut service = DnsService::new(DnsCache::new());
    let mut transport = RecordingTransport {
        sends: 0,
        recvs: 0,
        reply: vec![0; 7], // shorter than a header
    };
    let res = lookup_via(&mut service, &mut transport, &name);
    assert!(matches!(res, Err(DnsQueryError::DecodeFailed(_))));
}

#[test]
fn invalid_name_fails_before_any_io() {
    let name = "google.com".repeat(100);
    let mut service = DnsService::new(DnsCache::new());
    let mut transport = RecordingTransport {
        sends: 0,
        recvs: 0,
        reply: Vec::new(),
    };
    let res = lookup_via(&mut service, &mut transport, &name);
    assert!(matches!(res, Err(DnsQueryError::FailedToSend)));
    assert_eq!(transport.sends, 0);
    assert_eq!(transport.recvs, 0);
}
