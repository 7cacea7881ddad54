//! The fixed 12-byte message header: its field layout, wire encoding,
//! and total decoding. Layout, network byte order:
//! id(2) | flags(2) | qdcount(2) | ancount(2) | nscount(2) | arcount(2),
//! with the flag word, most to least significant:
//! qr(1) opcode(4) aa(1) tc(1) rd(1) ra(1) z(1) rcode(4).

use vstd::prelude::*;
use crate::enums::{MessageType, OpCode, ResponseCode};
use crate::errors::DecodeError;
use crate::traits::{Serializable, ToBytes};

verus! {

/// The fixed prefix of every DNS message: identifiers, flags, and the
/// four section counts.
#[derive(Clone, Copy, PartialEq, Eq, Structural, Debug)]
pub struct Header {
    pub id: u16,
    pub message_type: MessageType,
    pub op_code: OpCode,
    pub authoritative_answer: bool,
    pub truncated: bool,
    pub recursion_desired: bool,
    pub recursion_available: bool,
    pub z: bool,
    pub response_code: ResponseCode,
    pub questions: u16,
    pub answers: u16,
    pub authorities: u16,
    pub additionals: u16,
}

/// A boolean flag as its single wire bit.
pub open spec fn flag_bit(b: bool) -> u16 {
    if b {
        1
    } else {
        0
    }
}

/// The 16-bit flag word of a header, fields packed most significant
/// first: qr, opcode, aa, tc, rd, ra, z, rcode.
pub open spec fn flags_word(h: Header) -> u16 {
    (h.message_type.spec_value() << 15) | (h.op_code.spec_value() << 11) | (flag_bit(
        h.authoritative_answer,
    ) << 10) | (flag_bit(h.truncated) << 9) | (flag_bit(h.recursion_desired) << 8) | (flag_bit(
        h.recursion_available,
    ) << 7) | (flag_bit(h.z) << 6) | h.response_code.spec_value()
}

/// The high byte of a 16-bit value.
pub open spec fn u16_hi(x: u16) -> u8 {
    (x / 256) as u8
}

/// The low byte of a 16-bit value.
pub open spec fn u16_lo(x: u16) -> u8 {
    (x % 256) as u8
}

/// The 12 header bytes in network byte order.
pub open spec fn header_bytes(h: Header) -> Seq<u8> {
    seq![
        u16_hi(h.id),
        u16_lo(h.id),
        u16_hi(flags_word(h)),
        u16_lo(flags_word(h)),
        u16_hi(h.questions),
        u16_lo(h.questions),
        u16_hi(h.answers),
        u16_lo(h.answers),
        u16_hi(h.authorities),
        u16_lo(h.authorities),
        u16_hi(h.additionals),
        u16_lo(h.additionals),
    ]
}

/// The big-endian 16-bit value at `pos`.
pub open spec fn be16(buf: Seq<u8>, pos: int) -> u16 {
    (buf[pos] * 256 + buf[pos + 1]) as u16
}

/// The big-endian 32-bit value at `pos`.
pub open spec fn be32(buf: Seq<u8>, pos: int) -> u32 {
    (buf[pos] * 0x1000000 + buf[pos + 1] * 0x10000 + buf[pos + 2] * 256 + buf[pos + 3]) as u32
}

/// The header decoded from the first 12 bytes of `buf`. Total: a short
/// buffer fails with `BufferUnderrun`, and out-of-range opcode or
/// response-code values fail with their typed errors.
pub open spec fn parse_header_spec(buf: Seq<u8>) -> Result<Header, DecodeError> {
    if buf.len() < 12 {
        Err(DecodeError::BufferUnderrun)
    } else {
        let w = be16(buf, 2);
        match OpCode::spec_from_value((w >> 11) & 0xF) {
            Err(e) => Err(e),
            Ok(op) => match ResponseCode::spec_from_value(w & 0xF) {
                Err(e) => Err(e),
                Ok(rc) => Ok(
                    Header {
                        id: be16(buf, 0),
                        message_type: MessageType::spec_from_bit(w >> 15),
                        op_code: op,
                        authoritative_answer: (w >> 10) & 1 == 1,
                        truncated: (w >> 9) & 1 == 1,
                        recursion_desired: (w >> 8) & 1 == 1,
                        recursion_available: (w >> 7) & 1 == 1,
                        z: (w >> 6) & 1 == 1,
                        response_code: rc,
                        questions: be16(buf, 4),
                        answers: be16(buf, 6),
                        authorities: be16(buf, 8),
                        additionals: be16(buf, 10),
                    },
                ),
            },
        }
    }
}

/// The two bytes of a 16-bit value recombine to the value.
pub proof fn lemma_hi_lo(x: u16)
    ensures
        u16_hi(x) * 256 + u16_lo(x) == x,
{
}

/// Each field of a header can be read back from its flag word.
pub proof fn lemma_flags_word_fields(h: Header)
    ensures
        flags_word(h) >> 15 == h.message_type.spec_value(),
        (flags_word(h) >> 11) & 0xF == h.op_code.spec_value(),
        (flags_word(h) >> 10) & 1 == flag_bit(h.authoritative_answer),
        (flags_word(h) >> 9) & 1 == flag_bit(h.truncated),
        (flags_word(h) >> 8) & 1 == flag_bit(h.recursion_desired),
        (flags_word(h) >> 7) & 1 == flag_bit(h.recursion_available),
        (flags_word(h) >> 6) & 1 == flag_bit(h.z),
        flags_word(h) & 0xF == h.response_code.spec_value(),
{
    let qr = h.message_type.spec_value();
    let op = h.op_code.spec_value();
    let aa = flag_bit(h.authoritative_answer);
    let tc = flag_bit(h.truncated);
    let rd = flag_bit(h.recursion_desired);
    let ra = flag_bit(h.recursion_available);
    let z = flag_bit(h.z);
    let rc = h.response_code.spec_value();
    let w = flags_word(h);
    assert(w >> 15 == qr && (w >> 11) & 0xF == op && (w >> 10) & 1 == aa && (w >> 9) & 1 == tc && (
    w >> 8) & 1 == rd && (w >> 7) & 1 == ra && (w >> 6) & 1 == z && w & 0xF == rc)
        by (bit_vector)
        requires
            qr <= 1,
            op <= 3,
            aa <= 1,
            tc <= 1,
            rd <= 1,
            ra <= 1,
            z <= 1,
            rc <= 9,
            w == (qr << 15) | (op << 11) | (aa << 10) | (tc << 9) | (rd << 8) | (ra << 7) | (z
                << 6) | rc,
    ;
}

/// Decoding the encoding of any header reproduces it exactly: the id,
/// message type, opcode, every flag, the response code, and all four
/// section counts.
pub proof fn lemma_header_round_trip(h: Header)
    ensures
        parse_header_spec(header_bytes(h)) == Ok::<Header, DecodeError>(h),
{
    let bytes = header_bytes(h);
    lemma_hi_lo(h.id);
    lemma_hi_lo(flags_word(h));
    lemma_hi_lo(h.questions);
    lemma_hi_lo(h.answers);
    lemma_hi_lo(h.authorities);
    lemma_hi_lo(h.additionals);
    assert(be16(bytes, 0) == h.id);
    assert(be16(bytes, 2) == flags_word(h));
    assert(be16(bytes, 4) == h.questions);
    assert(be16(bytes, 6) == h.answers);
    assert(be16(bytes, 8) == h.authorities);
    assert(be16(bytes, 10) == h.additionals);
    lemma_flags_word_fields(h);
}

/// Appends the two big-endian bytes of a 16-bit value.
pub fn push_u16_be(out: &mut Vec<u8>, x: u16)
    ensures
        final(out)@ == old(out)@ + seq![u16_hi(x), u16_lo(x)],
{
    out.push((x / 256) as u8);
    out.push((x % 256) as u8);
    proof {
        assert(out@ =~= old(out)@ + seq![u16_hi(x), u16_lo(x)]);
    }
}

impl Serializable for Header {
    open spec fn serialized(&self) -> Seq<u8> {
        header_bytes(*self)
    }

    /// Packs the header into its 12 wire bytes.
    fn serialize(&self) -> (r: Vec<u8>) {
        let qr: u16 = self.message_type.value();
        let opcode: u16 = self.op_code.value();
        let aa: u16 = if self.authoritative_answer {
            1
        } else {
            0
        };
        let tc: u16 = if self.truncated {
            1
        } else {
            0
        };
        let rd: u16 = if self.recursion_desired {
            1
        } else {
            0
        };
        let ra: u16 = if self.recursion_available {
            1
        } else {
            0
        };
        let z: u16 = if self.z {
            1
        } else {
            0
        };
        let rc: u16 = self.response_code.value();
        let flags: u16 = (qr << 15) | (opcode << 11) | (aa << 10) | (tc << 9) | (rd << 8) | (ra
            << 7) | (z << 6) | rc;
        let mut out: Vec<u8> = Vec::new();
        push_u16_be(&mut out, self.id);
        push_u16_be(&mut out, flags);
        push_u16_be(&mut out, self.questions);
        push_u16_be(&mut out, self.answers);
        push_u16_be(&mut out, self.authorities);
        push_u16_be(&mut out, self.additionals);
        proof {
            assert(out@ =~= header_bytes(*self));
        }
        out
    }
}

impl ToBytes for Header {
    fn to_bytes(&self) -> (r: Vec<u8>) {
        self.serialize()
    }
}

} // verus!
