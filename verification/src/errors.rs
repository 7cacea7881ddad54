//! Error types: decode failures, name-validation verdicts, and the
//! errors a lookup can surface.

use vstd::prelude::*;

verus! {

/// Why decoding a wire-format buffer failed. Decoding is total: malformed
/// input yields one of these, never a panic or an out-of-range access.
#[derive(Clone, Copy, PartialEq, Eq, Structural, Debug)]
pub enum DecodeError {
    /// A read would have run past the end of the buffer.
    BufferUnderrun,
    /// The header's opcode field held a value outside the known set.
    UnsupportedOpcode,
    /// The header's response-code field held a value outside the known set.
    UnsupportedResponseCode,
    /// A name length byte had exactly one of its top two bits set,
    /// which is neither a label length nor a compression pointer.
    InvalidLabel,
    /// Following compression pointers exceeded the jump bound,
    /// indicating a cyclic or adversarial pointer chain.
    TooManyPointers,
    /// A type-A record's rdata length was not the four bytes of an
    /// IPv4 address.
    BadRdataLength,
}

/// Verdict of validating a domain name before encoding it.
#[derive(Clone, Copy, PartialEq, Eq, Structural, Debug)]
pub enum DnsValidation {
    /// The full name exceeds 253 bytes.
    InvalidTotalLength,
    /// Some label between dots exceeds 63 bytes.
    InvalidLabelLength,
    /// The name satisfies both length rules.
    Valid,
}

} // verus!
