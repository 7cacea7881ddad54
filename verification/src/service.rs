//! The resolver service: orchestrates a lookup as a sequence of
//! decisions over plain values — consult the cache, build and
//! serialize a query, interpret a reply and update the cache.
//!
//! The socket I/O between the two steps is not performed here: the
//! caller owns the transport, sends the datagram that `begin_lookup`
//! hands out, and feeds the reply datagram to `complete_lookup`. A
//! cache hit resolves in `begin_lookup` alone, so no datagram is
//! emitted and the transport is never touched.

use vstd::prelude::*;
use crate::cache::{stored_query, DnsCache, DnsQuery};
use crate::enums::ResponseCode;
use crate::errors::{DecodeError, DnsValidation};
use crate::message::{Message, MessageView};
use crate::name::{name_bytes, validate_spec};
use crate::parser::{parse_message_spec, DnsParser};
use crate::query::{create_query, query_view};
use crate::traits::Serializable;

verus! {

/// Why a lookup failed.
#[derive(Debug)]
pub enum DnsQueryError {
    /// The query could not be built (the name failed validation) or
    /// could not be handed to the transport.
    FailedToSend,
    /// The transport reported a send or receive failure.
    TransmitFailure,
    /// The reply could not be decoded.
    DecodeFailed(DecodeError),
    /// The reply was well-formed but carried a non-success status.
    ResponseError(ResponseCode),
}

/// What a begun lookup asks of its caller: nothing (the reply is
/// already at hand), or the transmission of one query datagram.
pub enum LookupStep {
    /// The cache held a valid answer; the lookup is complete.
    Resolved(Message),
    /// The lookup needs this datagram sent to the resolver; feed the
    /// reply to `complete_lookup`.
    Transmit(Vec<u8>),
}

/// The message a cache lookup for `name` yields: the stored reply,
/// provided its first answer's TTL is positive.
pub open spec fn cache_hit(entries: Seq<(String, DnsQuery)>, name: Seq<char>) -> Option<
    MessageView,
> {
    match stored_query(entries, name) {
        Some(q) => if q.message.answers@.len() > 0 && q.message.answers@[0].ttl > 0 {
            Some(q.message@)
        } else {
            None
        },
        None => None,
    }
}

/// The resolver service: the cache it owns, with the decision logic of
/// a lookup. The transport is owned by the caller.
pub struct DnsService {
    pub dns_cache: DnsCache,
}

impl DnsService {
    /// A service over the given (typically empty) cache.
    pub fn new(dns_cache: DnsCache) -> (r: DnsService)
        ensures
            r.dns_cache == dns_cache,
    {
        DnsService { dns_cache }
    }

    /// Starts a lookup: on a cache hit the stored reply is returned at
    /// once and nothing is transmitted; on a miss a query is built and
    /// its serialized datagram handed back for transmission. A name
    /// that fails validation yields `FailedToSend` before any I/O.
    pub fn begin_lookup(&self, dns_name: &String) -> (r: Result<LookupStep, DnsQueryError>)
        ensures
            match r {
                Ok(step) => match step {
                    LookupStep::Resolved(m) => cache_hit(self.dns_cache.entries@, dns_name@)
                        == Some(m@),
                    LookupStep::Transmit(bytes) => cache_hit(self.dns_cache.entries@, dns_name@)
                        is None && validate_spec(name_bytes(dns_name@)) == DnsValidation::Valid
                        && (exists|id: u16|
                        bytes@ == crate::message::message_bytes(
                            query_view(name_bytes(dns_name@), id),
                        )),
                },
                Err(e) => e matches DnsQueryError::FailedToSend && cache_hit(
                    self.dns_cache.entries@,
                    dns_name@,
                ) is None && validate_spec(name_bytes(dns_name@)) != DnsValidation::Valid,
            },
    {
        match self.dns_cache.get(dns_name) {
            Some(res) => {
                return Ok(LookupStep::Resolved(res.message));
            },
            None => {},
        }
        let message = match create_query(dns_name) {
            Ok(message) => message,
            Err(_) => {
                return Err(DnsQueryError::FailedToSend);
            },
        };
        let query = message.serialize();
        proof {
            let id = message.header.id;
            assert(query@ == crate::message::message_bytes(query_view(name_bytes(dns_name@), id)));
        }
        Ok(LookupStep::Transmit(query))
    }

    /// Completes a lookup with the reply datagram: decodes it, rejects
    /// a non-success response code, and on success with a non-empty
    /// answer section stores the reply under the queried name. A
    /// decode failure, an error status, or an empty answer section
    /// leaves the cache untouched.
    pub fn complete_lookup(&mut self, dns_name: &String, reply: Vec<u8>) -> (r: Result<
        Message,
        DnsQueryError,
    >)
        ensures
            match r {
                Ok(m) => parse_message_spec(reply@) == Ok::<_, DecodeError>(m@)
                    && m.header.response_code == ResponseCode::NoError && (m.answers@.len() > 0
                    ==> (stored_query(final(self).dns_cache.entries@, dns_name@) matches Some(q)
                    && q.message@ == m@ && q.dns_name@ == dns_name@) && (forall|other: Seq<char>|
                    other != dns_name@ ==> stored_query(final(self).dns_cache.entries@, other)
                        == stored_query(old(self).dns_cache.entries@, other))) && (m.answers@.len()
                    == 0 ==> *final(self) == *old(self)),
                Err(e) => match e {
                    DnsQueryError::DecodeFailed(de) => parse_message_spec(reply@) == Err::<
                        MessageView,
                        _,
                    >(de) && *final(self) == *old(self),
                    DnsQueryError::ResponseError(rc) => (parse_message_spec(reply@) matches Ok(mv)
                        && mv.header.response_code == rc) && rc != ResponseCode::NoError
                        && *final(self) == *old(self),
                    _ => false,
                },
            },
    {
        let parser = DnsParser {};
        let msg = match parser.parse_message(reply) {
            Ok(m) => m,
            Err(e) => {
                return Err(DnsQueryError::DecodeFailed(e));
            },
        };
        if !matches!(msg.header.response_code, ResponseCode::NoError) {
            return Err(DnsQueryError::ResponseError(msg.header.response_code));
        }
        if msg.answers.len() > 0 {
            let entry = DnsQuery { dns_name: dns_name.clone(), message: msg.clone() };
            self.dns_cache.set(dns_name.as_str(), &entry);
            return Ok(msg);
        }
        Ok(msg)
    }
}

} // verus!
