use dns_resolver::enums::{MessageType, OpCode, ResponseCode};
use dns_resolver::errors::{DecodeError, DnsValidation};
use dns_resolver::header::Header;
use dns_resolver::message::{Message, Question, RData};
use dns_resolver::name::{decode_name, encode_dns_name, validate_dns_name};
use dns_resolver::parser::DnsParser;
use dns_resolver::traits::{Serializable, ToBytes};

fn header_with(id: u16, questions: u16) -> Header {
    Header {
        id,
        op_code: OpCode::Query,
        authoritative_answer: false,
        truncated: false,
        recursion_desired: false,
        recursion_available: false,
        z: false,
        response_code: ResponseCode::NoError,
        questions,
        additionals: 0,
        answers: 0,
        authorities: 0,
        message_type: MessageType::Query,
    }
}

#[test]
fn parse_header() {
    let parser = DnsParser {};

    let msg = header_with(1, 1);

    let bytes = msg.to_bytes();

    let res = parser.parse(&bytes).unwrap();

    assert!(res.id == 1);
    assert!(res.questions == 1);
    assert!(res.answers == 0);
    assert!(res.authorities == 0);
    assert!(res.additionals == 0);
    assert!(res.message_type == MessageType::Query);
}

#[test]
fn test_encode_dns_name() {
    let name = "google.com";
    let encoded = encode_dns_name(name);
    assert_eq!(encoded, b"\x06google\x03com\x00".to_vec());
}

#[test]
fn test_validate_dns_name_should_succeed() {
    let name = "google.com";
    let validation = validate_dns_name(&name.to_string());

    assert_eq!(validation, DnsValidation::Valid);
}

#[test]
fn test_validate_dns_name_should_fail_on_dns_with_length_greater_than_253() {
    let name = "google.com".repeat(100);
    let validation = validate_dns_name(&name.to_string());

    assert_eq!(validation, DnsValidation::InvalidTotalLength);
}

#[test]
fn validate_rejects_sixty_four_byte_label() {
    let label = "a".repeat(64);
    let name = format!("{}.com", label);
    assert_eq!(
        validate_dns_name(&name),
        DnsValidation::InvalidLabelLength
    );
}

#[test]
fn validate_accepts_sixty_three_byte_label() {
    let label = "a".repeat(63);
    let name = format!("{}.com", label);
    assert_eq!(validate_dns_name(&name), DnsValidation::Valid);
}

#[test]
fn header_round_trip_preserves_every_field() {
    let h = Header {
        id: 0xBEEF,
        message_type: MessageType::Response,
        op_code: OpCode::Status,
        authoritative_answer: true,
        truncated: false,
        recursion_desired: true,
        recursion_available: true,
        z: false,
        response_code: ResponseCode::NameError,
        questions: 3,
        answers: 7,
        authorities: 1,
        additionals: 2,
    };
    let parser = DnsParser {};
    let back = parser.parse(&h.to_bytes()).unwrap();
    assert_eq!(back.id, 0xBEEF);
    assert_eq!(back.message_type, MessageType::Response);
    assert_eq!(back.op_code, OpCode::Status);
    assert!(back.authoritative_answer);
    assert!(!back.truncated);
    assert!(back.recursion_desired);
    assert!(back.recursion_available);
    assert!(!back.z);
    assert_eq!(back.response_code, ResponseCode::NameError);
    assert_eq!(back.questions, 3);
    assert_eq!(back.answers, 7);
    assert_eq!(back.authorities, 1);
    assert_eq!(back.additionals, 2);
}

#[test]
fn header_serialize_exact_bytes() {
    let h = Header {
        id: 0x1234,
        message_type: MessageType::Response,
        op_code: OpCode::Query,
        authoritative_answer: false,
        truncated: false,
        recursion_desired: true,
        recursion_available: true,
        z: false,
        response_code: ResponseCode::NoError,
        questions: 1,
        answers: 2,
        authorities: 3,
        additionals: 4,
    };
    assert_eq!(
        h.to_bytes(),
        vec![0x12, 0x34, 0x81, 0x80, 0, 1, 0, 2, 0, 3, 0, 4]
    );
}

#[test]
fn message_serialize_exact_bytes() {
    let q = Question::new(encode_dns_name("ab"), 1, 1);
    let msg = Message {
        header: header_with(7, 1),
        questions: vec![q],
        answers: vec![],
    };
    assert_eq!(
        msg.serialize(),
        vec![0, 7, 0, 0, 0, 1, 0, 0, 0, 0, 0, 0, 2, b'a', b'b', 0, 0, 1, 0, 1]
    );
}

#[test]
fn short_buffer_fails_with_buffer_underrun() {
    let parser = DnsParser {};
    let buf: Vec<u8> = vec![0; 11];
    assert_eq!(parser.parse(&buf), Err(DecodeError::BufferUnderrun));
    assert!(matches!(
        parser.parse_message(buf),
        Err(DecodeError::BufferUnderrun)
    ));
    let empty: Vec<u8> = Vec::new();
    assert_eq!(parser.parse(&empty), Err(DecodeError::BufferUnderrun));
}

#[test]
fn unknown_opcode_fails_typed() {
    // opcode bits set to 9, everything else zero
    let w: u16 = 9 << 11;
    let mut buf = vec![0u8, 1, (w >> 8) as u8, (w & 0xFF) as u8];
    buf.extend_from_slice(&[0; 8]);
    let parser = DnsParser {};
    assert_eq!(parser.parse(&buf), Err(DecodeError::UnsupportedOpcode));
}

#[test]
fn unknown_response_code_fails_typed() {
    let w: u16 = 12;
    let mut buf = vec![0u8, 1, (w >> 8) as u8, (w & 0xFF) as u8];
    buf.extend_from_slice(&[0; 8]);
    let parser = DnsParser {};
    assert_eq!(parser.parse(&buf), Err(DecodeError::UnsupportedResponseCode));
}

#[test]
fn decode_name_reads_labels_into_dotted_text() {
    let buf = b"\x06google\x03com\x00".to_vec();
    let (name, end) = decode_name(&buf, 0).unwrap();
    assert_eq!(name, b"google.com.".to_vec());
    assert_eq!(end, buf.len());
}

#[test]
fn decode_name_through_pointer_matches_expanded_form() {
    // the expanded name at offset 0, then a compression pointer to it
    let mut buf = b"\x06google\x03com\x00".to_vec();
    let pointer_at = buf.len();
    buf.push(0xC0);
    buf.push(0x00);
    let (expanded, _) = decode_name(&buf, 0).unwrap();
    let (via_pointer, end) = decode_name(&buf, pointer_at).unwrap();
    assert_eq!(via_pointer, expanded);
    assert_eq!(via_pointer, b"google.com.".to_vec());
    // the pointer itself is the final element consumed at the cursor
    assert_eq!(end, pointer_at + 2);
}

#[test]
fn decode_name_rejects_cyclic_pointers() {
    let buf = vec![0xC0u8, 0x00];
    assert_eq!(decode_name(&buf, 0), Err(DecodeError::TooManyPointers));
}

#[test]
fn decode_name_rejects_reserved_length_bits() {
    let buf = vec![0x40u8, 0x00];
    assert_eq!(decode_name(&buf, 0), Err(DecodeError::InvalidLabel));
}

#[test]
fn decode_name_rejects_truncated_label() {
    let buf = b"\x06goo".to_vec();
    assert_eq!(decode_name(&buf, 0), Err(DecodeError::BufferUnderrun));
}

/// A reply for `google.com` with one type-A answer, the answer name
/// compressed as a pointer to the question.
fn sample_reply(id: u16, rcode: u8, ttl: u32) -> Vec<u8> {
    let mut buf = Vec::new();
    buf.extend_from_slice(&[(id >> 8) as u8, (id & 0xFF) as u8]);
    buf.extend_from_slice(&[0x81, 0x80 | rcode]); // qr, rd, ra, rcode
    buf.extend_from_slice(&[0, 1, 0, 1, 0, 0, 0, 0]); // counts
    buf.extend_from_slice(b"\x06google\x03com\x00");
    buf.extend_from_slice(&[0, 1, 0, 1]); // qtype A, qclass IN
    buf.extend_from_slice(&[0xC0, 0x0C]); // name: pointer to offset 12
    buf.extend_from_slice(&[0, 1, 0, 1]); // type A, class IN
    buf.extend_from_slice(&ttl.to_be_bytes());
    buf.extend_from_slice(&[0, 4, 93, 184, 216, 34]); // rdlength, rdata
    buf
}

#[test]
fn parse_message_reads_question_and_answer() {
    let parser = DnsParser {};
    let msg = parser.parse_message(sample_reply(0x1234, 0, 300)).unwrap();
    assert_eq!(msg.header.id, 0x1234);
    assert_eq!(msg.header.message_type, MessageType::Response);
    assert_eq!(msg.header.response_code, ResponseCode::NoError);
    assert_eq!(msg.questions.len(), 1);
    assert_eq!(msg.questions[0].name, b"google.com.".to_vec());
    assert_eq!(msg.questions[0].qtype, 1);
    assert_eq!(msg.questions[0].qclass, 1);
    assert_eq!(msg.answers.len(), 1);
    assert_eq!(msg.answers[0].name, b"google.com.".to_vec());
    assert_eq!(msg.answers[0].ttl, 300);
    assert!(matches!(msg.answers[0].rdata, RData::A(93, 184, 216, 34)));
}

#[test]
fn parse_message_rejects_bad_a_record_length() {
    let mut buf = sample_reply(7, 0, 60);
    // claim five rdata bytes for a type-A record
    let n = buf.len();
    buf[n - 5] = 5;
    buf.push(0);
    let parser = DnsParser {};
    assert!(matches!(
        parser.parse_message(buf),
        Err(DecodeError::BadRdataLength)
    ));
}

#[test]
fn parse_message_rejects_truncated_answer() {
    let mut buf = sample_reply(7, 0, 60);
    buf.truncate(buf.len() - 2);
    let parser = DnsParser {};
    assert!(matches!(
        parser.parse_message(buf),
        Err(DecodeError::BufferUnderrun)
    ));
}

#[test]
fn read_next_u16_and_u32_advance_cursor() {
    let parser = DnsParser {};
    let buf = vec![0x12u8, 0x34, 0xDE, 0xAD, 0xBE, 0xEF];
    let mut offset: usize = 0;
    assert_eq!(parser.read_next_u16(&buf, &mut offset), Ok(0x1234));
    assert_eq!(offset, 2);
    assert_eq!(parser.read_next_u32(&buf, &mut offset), Ok(0xDEADBEEF));
    assert_eq!(offset, 6);
    assert_eq!(
        parser.read_next_u16(&buf, &mut offset),
        Err(DecodeError::BufferUnderrun)
    );
    assert_eq!(offset, 6);
}

#[test]
fn opcode_and_rcode_values_round_trip() {
    for v in 0..4u16 {
        let op = OpCode::from_value(v).unwrap();
        assert_eq!(op.value(), v);
    }
    assert_eq!(OpCode::from_value(4), Err(DecodeError::UnsupportedOpcode));
    for v in 0..10u16 {
        let rc = ResponseCode::from_value(v).unwrap();
        assert_eq!(rc.value(), v);
    }
    assert_eq!(
        ResponseCode::from_value(10),
        Err(DecodeError::UnsupportedResponseCode)
    );
}
