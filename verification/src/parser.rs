//! Decoding of reply buffers: a cursor-driven, bounds-checked parser
//! for questions, resource records, and whole messages, total over
//! arbitrary input.

use vstd::prelude::*;
use crate::errors::DecodeError;
use crate::header::{be16, be32, parse_header_spec, Header};
use crate::message::{
    question_views, record_views, Message, MessageView, Question, QuestionView, RData, RDataView,
    RecordView, ResourceRecord,
};
use crate::name::{decode_name, parse_name_spec};

verus! {

/// The question read from `buf` at `pos`: a name, then the query type
/// and class, with the cursor just past them.
pub open spec fn parse_question_spec(buf: Seq<u8>, pos: int) -> Result<
    (QuestionView, int),
    DecodeError,
> {
    match parse_name_spec(buf, pos, buf.len() as nat) {
        Err(e) => Err(e),
        Ok((name, p)) => if p + 4 > buf.len() {
            Err(DecodeError::BufferUnderrun)
        } else {
            Ok(
                (
                    QuestionView { name, qtype: be16(buf, p), qclass: be16(buf, p + 2) },
                    p + 4,
                ),
            )
        },
    }
}

/// The resource record read from `buf` at `pos`: a name, the fixed
/// type/class/ttl/rdlength fields, and the rdata, which is interpreted
/// as an IPv4 address for a type-A record and carried opaque otherwise.
pub open spec fn parse_record_spec(buf: Seq<u8>, pos: int) -> Result<
    (RecordView, int),
    DecodeError,
> {
    match parse_name_spec(buf, pos, buf.len() as nat) {
        Err(e) => Err(e),
        Ok((name, p)) => if p + 10 > buf.len() {
            Err(DecodeError::BufferUnderrun)
        } else {
            let rtype = be16(buf, p);
            let rclass = be16(buf, p + 2);
            let ttl = be32(buf, p + 4);
            let rdlength = be16(buf, p + 8);
            let p2 = p + 10;
            if p2 + rdlength > buf.len() {
                Err(DecodeError::BufferUnderrun)
            } else if rtype == 1 {
                if rdlength != 4 {
                    Err(DecodeError::BadRdataLength)
                } else {
                    Ok(
                        (
                            RecordView {
                                name,
                                rtype,
                                rclass,
                                ttl,
                                rdlength,
                                rdata: RDataView::A(buf[p2], buf[p2 + 1], buf[p2 + 2], buf[p2 + 3]),
                            },
                            p2 + 4,
                        ),
                    )
                }
            } else {
                Ok(
                    (
                        RecordView {
                            name,
                            rtype,
                            rclass,
                            ttl,
                            rdlength,
                            rdata: RDataView::Opaque(buf.subrange(p2, p2 + rdlength)),
                        },
                        p2 + rdlength,
                    ),
                )
            }
        },
    }
}

/// The first `n` questions read from `buf` starting at `pos`, with the
/// cursor after the last.
pub open spec fn parse_questions_spec(buf: Seq<u8>, pos: int, n: nat) -> Result<
    (Seq<QuestionView>, int),
    DecodeError,
>
    decreases n,
{
    if n == 0 {
        Ok((seq![], pos))
    } else {
        match parse_questions_spec(buf, pos, (n - 1) as nat) {
            Err(e) => Err(e),
            Ok((qs, p)) => match parse_question_spec(buf, p) {
                Err(e) => Err(e),
                Ok((q, p2)) => Ok((qs.push(q), p2)),
            },
        }
    }
}

/// The first `n` resource records read from `buf` starting at `pos`,
/// with the cursor after the last.
pub open spec fn parse_records_spec(buf: Seq<u8>, pos: int, n: nat) -> Result<
    (Seq<RecordView>, int),
    DecodeError,
>
    decreases n,
{
    if n == 0 {
        Ok((seq![], pos))
    } else {
        match parse_records_spec(buf, pos, (n - 1) as nat) {
            Err(e) => Err(e),
            Ok((rs, p)) => match parse_record_spec(buf, p) {
                Err(e) => Err(e),
                Ok((a, p2)) => Ok((rs.push(a), p2)),
            },
        }
    }
}

/// The whole message read from `buf`: the header, then as many
/// questions and answers as the header's counts announce.
pub open spec fn parse_message_spec(buf: Seq<u8>) -> Result<MessageView, DecodeError> {
    match parse_header_spec(buf) {
        Err(e) => Err(e),
        Ok(h) => match parse_questions_spec(buf, 12, h.questions as nat) {
            Err(e) => Err(e),
            Ok((qs, p)) => match parse_records_spec(buf, p, h.answers as nat) {
                Err(e) => Err(e),
                Ok((ans, _)) => Ok(MessageView { header: h, questions: qs, answers: ans }),
            },
        },
    }
}

/// Once a question fails to parse, reading any longer prefix fails
/// with the same error.
proof fn lemma_parse_questions_err(buf: Seq<u8>, pos: int, i: nat, n: nat)
    requires
        i < n,
        parse_questions_spec(buf, pos, i) is Ok,
        parse_question_spec(buf, parse_questions_spec(buf, pos, i)->Ok_0.1) is Err,
    ensures
        parse_questions_spec(buf, pos, n) == Err::<(Seq<QuestionView>, int), DecodeError>(
            parse_question_spec(buf, parse_questions_spec(buf, pos, i)->Ok_0.1)->Err_0,
        ),
    decreases n,
{
    if n == i + 1 {
    } else {
        lemma_parse_questions_err(buf, pos, i, (n - 1) as nat);
    }
}

/// Once a record fails to parse, reading any longer prefix fails with
/// the same error.
proof fn lemma_parse_records_err(buf: Seq<u8>, pos: int, i: nat, n: nat)
    requires
        i < n,
        parse_records_spec(buf, pos, i) is Ok,
        parse_record_spec(buf, parse_records_spec(buf, pos, i)->Ok_0.1) is Err,
    ensures
        parse_records_spec(buf, pos, n) == Err::<(Seq<RecordView>, int), DecodeError>(
            parse_record_spec(buf, parse_records_spec(buf, pos, i)->Ok_0.1)->Err_0,
        ),
    decreases n,
{
    if n == i + 1 {
    } else {
        lemma_parse_records_err(buf, pos, i, (n - 1) as nat);
    }
}

/// A reply shorter than the 12 header bytes always fails to decode
/// with a typed error, never an out-of-range access.
pub proof fn lemma_short_buffer_fails(buf: Seq<u8>)
    requires
        buf.len() < 12,
    ensures
        parse_header_spec(buf) == Err::<Header, DecodeError>(DecodeError::BufferUnderrun),
        parse_message_spec(buf) == Err::<MessageView, DecodeError>(DecodeError::BufferUnderrun),
{
}

/// The message decoder: a cursor-driven reader over a reply buffer.
pub struct DnsParser {}

impl DnsParser {
    /// Reads the big-endian 16-bit value at the cursor and advances it
    /// by two, or fails without moving it if fewer than two bytes
    /// remain.
    pub fn read_next_u16(&self, buffer: &Vec<u8>, offset: &mut usize) -> (r: Result<
        u16,
        DecodeError,
    >)
        ensures
            match r {
                Ok(v) => *old(offset) + 2 <= buffer@.len() && v == be16(buffer@, *old(offset) as int)
                    && *final(offset) == *old(offset) + 2,
                Err(e) => e == DecodeError::BufferUnderrun && *old(offset) + 2 > buffer@.len()
                    && *final(offset) == *old(offset),
            },
    {
        if buffer.len() < 2 || *offset > buffer.len() - 2 {
            return Err(DecodeError::BufferUnderrun);
        }
        let hi = buffer[*offset];
        let lo = buffer[*offset + 1];
        *offset = *offset + 2;
        Ok((hi as u16) * 256 + (lo as u16))
    }

    /// Reads the big-endian 32-bit value at the cursor and advances it
    /// by four, or fails without moving it if fewer than four bytes
    /// remain.
    pub fn read_next_u32(&self, buffer: &Vec<u8>, offset: &mut usize) -> (r: Result<
        u32,
        DecodeError,
    >)
        ensures
            match r {
                Ok(v) => *old(offset) + 4 <= buffer@.len() && v == be32(buffer@, *old(offset) as int)
                    && *final(offset) == *old(offset) + 4,
                Err(e) => e == DecodeError::BufferUnderrun && *old(offset) + 4 > buffer@.len()
                    && *final(offset) == *old(offset),
            },
    {
        if buffer.len() < 4 || *offset > buffer.len() - 4 {
            return Err(DecodeError::BufferUnderrun);
        }
        let b0 = buffer[*offset];
        let b1 = buffer[*offset + 1];
        let b2 = buffer[*offset + 2];
        let b3 = buffer[*offset + 3];
        *offset = *offset + 4;
        Ok((b0 as u32) * 0x1000000 + (b1 as u32) * 0x10000 + (b2 as u32) * 256 + (b3 as u32))
    }

    /// Reads a name at the cursor, following compression pointers, and
    /// leaves the cursor just past the name. Fails without moving the
    /// cursor.
    pub fn parse_name(&self, buffer: &Vec<u8>, offset: &mut usize) -> (r: Result<
        Vec<u8>,
        DecodeError,
    >)
        ensures
            match r {
                Ok(name) => parse_name_spec(buffer@, *old(offset) as int, buffer@.len() as nat)
                    == Ok::<_, DecodeError>((name@, *final(offset) as int)) && *old(offset)
                    < *final(offset) && *final(offset) <= buffer@.len(),
                Err(e) => parse_name_spec(buffer@, *old(offset) as int, buffer@.len() as nat)
                    == Err::<(Seq<u8>, int), _>(e) && *final(offset) == *old(offset),
            },
    {
        match decode_name(buffer, *offset) {
            Ok((name, end)) => {
                *offset = end;
                Ok(name)
            },
            Err(e) => Err(e),
        }
    }

    /// Reads an answer's name at the cursor; on the wire this is most
    /// often a two-byte compression pointer into the question section,
    /// which the name codec follows.
    pub fn parse_domain(&self, buffer: &Vec<u8>, offset: &mut usize) -> (r: Result<
        Vec<u8>,
        DecodeError,
    >)
        ensures
            match r {
                Ok(name) => parse_name_spec(buffer@, *old(offset) as int, buffer@.len() as nat)
                    == Ok::<_, DecodeError>((name@, *final(offset) as int)) && *old(offset)
                    < *final(offset) && *final(offset) <= buffer@.len(),
                Err(e) => parse_name_spec(buffer@, *old(offset) as int, buffer@.len() as nat)
                    == Err::<(Seq<u8>, int), _>(e) && *final(offset) == *old(offset),
            },
    {
        self.parse_name(buffer, offset)
    }

    /// Reads one question at the cursor. Fails without moving the
    /// cursor.
    pub fn parse_question(&self, buffer: &Vec<u8>, offset: &mut usize) -> (r: Result<
        Question,
        DecodeError,
    >)
        ensures
            match r {
                Ok(q) => parse_question_spec(buffer@, *old(offset) as int) == Ok::<_, DecodeError>(
                    (q@, *final(offset) as int),
                ) && *final(offset) <= buffer@.len(),
                Err(e) => parse_question_spec(buffer@, *old(offset) as int) == Err::<
                    (QuestionView, int),
                    _,
                >(e) && *final(offset) == *old(offset),
            },
    {
        let (name, end) = match decode_name(buffer, *offset) {
            Ok(pair) => pair,
            Err(e) => {
                return Err(e);
            },
        };
        let mut pos = end;
        let qtype = match self.read_next_u16(buffer, &mut pos) {
            Ok(v) => v,
            Err(e) => {
                return Err(e);
            },
        };
        let qclass = match self.read_next_u16(buffer, &mut pos) {
            Ok(v) => v,
            Err(e) => {
                return Err(e);
            },
        };
        *offset = pos;
        Ok(Question { name, qtype, qclass })
    }

    /// Reads one resource record at the cursor. Fails without moving
    /// the cursor.
    pub fn parse_answer(&self, buffer: &Vec<u8>, offset: &mut usize) -> (r: Result<
        ResourceRecord,
        DecodeError,
    >)
        ensures
            match r {
                Ok(a) => parse_record_spec(buffer@, *old(offset) as int) == Ok::<_, DecodeError>(
                    (a@, *final(offset) as int),
                ) && *final(offset) <= buffer@.len(),
                Err(e) => parse_record_spec(buffer@, *old(offset) as int) == Err::<
                    (RecordView, int),
                    _,
                >(e) && *final(offset) == *old(offset),
            },
    {
        let (name, end) = match decode_name(buffer, *offset) {
            Ok(pair) => pair,
            Err(e) => {
                return Err(e);
            },
        };
        let mut pos = end;
        if buffer.len() < 10 || pos > buffer.len() - 10 {
            return Err(DecodeError::BufferUnderrun);
        }
        let rtype = match self.read_next_u16(buffer, &mut pos) {
            Ok(v) => v,
            Err(e) => {
                return Err(e);
            },
        };
        let rclass = match self.read_next_u16(buffer, &mut pos) {
            Ok(v) => v,
            Err(e) => {
                return Err(e);
            },
        };
        let ttl = match self.read_next_u32(buffer, &mut pos) {
            Ok(v) => v,
            Err(e) => {
                return Err(e);
            },
        };
        let rdlength = match self.read_next_u16(buffer, &mut pos) {
            Ok(v) => v,
            Err(e) => {
                return Err(e);
            },
        };
        if rdlength as usize > buffer.len() - pos {
            return Err(DecodeError::BufferUnderrun);
        }
        if rtype == 1 {
            if rdlength != 4 {
                return Err(DecodeError::BadRdataLength);
            }
            let a = buffer[pos];
            let b = buffer[pos + 1];
            let c = buffer[pos + 2];
            let d = buffer[pos + 3];
            *offset = pos + 4;
            Ok(
                ResourceRecord {
                    name,
                    rtype,
                    rclass,
                    ttl,
                    rdlength,
                    rdata: RData::A(a, b, c, d),
                },
            )
        } else {
            let mut rdata: Vec<u8> = Vec::new();
            let rd_end = pos + rdlength as usize;
            let mut t = pos;
            while t < rd_end
                invariant
                    pos <= t <= rd_end <= buffer@.len(),
                    rdata@ == buffer@.subrange(pos as int, t as int),
                decreases rd_end - t,
            {
                rdata.push(buffer[t]);
                proof {
                    assert(rdata@ =~= buffer@.subrange(pos as int, t + 1));
                }
                t = t + 1;
            }
            *offset = rd_end;
            Ok(
                ResourceRecord {
                    name,
                    rtype,
                    rclass,
                    ttl,
                    rdlength,
                    rdata: RData::Opaque(rdata),
                },
            )
        }
    }

    /// Decodes the header from the first 12 bytes of the buffer.
    pub fn parse(&self, buffer: &Vec<u8>) -> (r: Result<Header, DecodeError>)
        ensures
            r == parse_header_spec(buffer@),
    {
        if buffer.len() < 12 {
            return Err(DecodeError::BufferUnderrun);
        }
        let w: u16 = (buffer[2] as u16) * 256 + (buffer[3] as u16);
        let op_code = match crate::enums::OpCode::from_value((w >> 11) & 0xF) {
            Ok(v) => v,
            Err(e) => {
                return Err(e);
            },
        };
        let response_code = match crate::enums::ResponseCode::from_value(w & 0xF) {
            Ok(v) => v,
            Err(e) => {
                return Err(e);
            },
        };
        Ok(
            Header {
                id: (buffer[0] as u16) * 256 + (buffer[1] as u16),
                message_type: crate::enums::MessageType::from_bit(w >> 15),
                op_code,
                authoritative_answer: (w >> 10) & 1 == 1,
                truncated: (w >> 9) & 1 == 1,
                recursion_desired: (w >> 8) & 1 == 1,
                recursion_available: (w >> 7) & 1 == 1,
                z: (w >> 6) & 1 == 1,
                response_code,
                questions: (buffer[4] as u16) * 256 + (buffer[5] as u16),
                answers: (buffer[6] as u16) * 256 + (buffer[7] as u16),
                authorities: (buffer[8] as u16) * 256 + (buffer[9] as u16),
                additionals: (buffer[10] as u16) * 256 + (buffer[11] as u16),
            },
        )
    }

    /// Decodes a whole reply: the header, then the announced number of
    /// questions and answers, advancing a shared cursor throughout.
    /// Total: any malformed buffer yields a typed error.
    pub fn parse_message(&self, buffer: Vec<u8>) -> (r: Result<Message, DecodeError>)
        ensures
            match r {
                Ok(m) => parse_message_spec(buffer@) == Ok::<_, DecodeError>(m@) && m.wf(),
                Err(e) => parse_message_spec(buffer@) == Err::<MessageView, _>(e),
            },
    {
        let header = match self.parse(&buffer) {
            Ok(h) => h,
            Err(e) => {
                return Err(e);
            },
        };
        let mut questions: Vec<Question> = Vec::new();
        let mut offset: usize = 12;
        let mut k: u16 = 0;
        proof {
            assert(question_views(questions@) =~= Seq::<QuestionView>::empty());
        }
        while k < header.questions
            invariant
                k <= header.questions,
                parse_header_spec(buffer@) == Ok::<_, DecodeError>(header),
                questions@.len() == k,
                offset <= buffer@.len(),
                parse_questions_spec(buffer@, 12, k as nat) == Ok::<_, DecodeError>(
                    (question_views(questions@), offset as int),
                ),
            decreases header.questions - k,
        {
            let q = match self.parse_question(&buffer, &mut offset) {
                Ok(q) => q,
                Err(e) => {
                    proof {
                        lemma_parse_questions_err(
                            buffer@,
                            12,
                            k as nat,
                            header.questions as nat,
                        );
                    }
                    return Err(e);
                },
            };
            let ghost old_qs = questions@;
            questions.push(q);
            k = k + 1;
            proof {
                assert(question_views(questions@) =~= question_views(old_qs).push(q@));
                assert(parse_questions_spec(buffer@, 12, k as nat) == Ok::<_, DecodeError>(
                    (question_views(questions@), offset as int),
                ));
            }
        }
        let mut answers: Vec<ResourceRecord> = Vec::new();
        let mut j: u16 = 0;
        let ghost qpos: int = offset as int;
        proof {
            assert(record_views(answers@) =~= Seq::<RecordView>::empty());
        }
        while j < header.answers
            invariant
                j <= header.answers,
                parse_header_spec(buffer@) == Ok::<_, DecodeError>(header),
                parse_questions_spec(buffer@, 12, header.questions as nat) == Ok::<_, DecodeError>(
                    (question_views(questions@), qpos),
                ),
                answers@.len() == j,
                offset <= buffer@.len(),
                parse_records_spec(buffer@, qpos, j as nat) == Ok::<_, DecodeError>(
                    (record_views(answers@), offset as int),
                ),
            decreases header.answers - j,
        {
            let a = match self.parse_answer(&buffer, &mut offset) {
                Ok(a) => a,
                Err(e) => {
                    proof {
                        lemma_parse_records_err(buffer@, qpos, j as nat, header.answers as nat);
                    }
                    return Err(e);
                },
            };
            let ghost old_ans = answers@;
            answers.push(a);
            j = j + 1;
            proof {
                assert(record_views(answers@) =~= record_views(old_ans).push(a@));
                assert(parse_records_spec(buffer@, qpos, j as nat) == Ok::<_, DecodeError>(
                    (record_views(answers@), offset as int),
                ));
            }
        }
        Ok(Message { header, questions, answers })
    }
}

} // verus!
