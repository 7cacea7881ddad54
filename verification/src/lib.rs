//! A stub DNS resolver library: wire-format codec for DNS messages
//! (header, question, resource record, domain-name labels with
//! compression pointers), query construction, a TTL-gated answer cache,
//! and the resolver decision logic that ties them together.
//!
//! Network transport is deliberately kept outside: the resolver exposes
//! the steps of a lookup (consult the cache, emit a query datagram,
//! interpret a reply datagram) as verified functions over plain byte
//! buffers, and a thin driver performs the socket I/O.

pub mod cache;
pub mod enums;
pub mod errors;
pub mod header;
pub mod message;
pub mod name;
pub mod parser;
pub mod query;
pub mod service;
pub mod traits;

pub use cache::{DnsCache, DnsQuery};
pub use enums::{DnsClass, MessageType, OpCode, ResponseCode};
pub use errors::{DecodeError, DnsValidation};
pub use header::Header;
pub use message::{Message, Question, RData, ResourceRecord};
pub use parser::DnsParser;
pub use query::create_query;
pub use service::{DnsQueryError, DnsService, LookupStep};
pub use traits::{Serializable, ToBytes};
