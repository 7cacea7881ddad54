//! The message body types: questions, resource records and their
//! rdata, and the message itself, with their wire encodings.
//!
//! Names are carried as byte strings: an outgoing question holds the
//! label-encoded form produced by the name codec, a decoded question
//! or record holds the dotted text read back from the wire.

use vstd::prelude::*;
use crate::header::{header_bytes, push_u16_be, u16_hi, u16_lo, Header};
use crate::traits::{Serializable, ToBytes};

verus! {

/// A single query entry: a name, a query type, and a query class.
pub struct Question {
    pub name: Vec<u8>,
    pub qtype: u16,
    pub qclass: u16,
}

/// The mathematical value of a `Question`.
pub struct QuestionView {
    pub name: Seq<u8>,
    pub qtype: u16,
    pub qclass: u16,
}

impl View for Question {
    type V = QuestionView;

    open spec fn view(&self) -> QuestionView {
        QuestionView { name: self.name@, qtype: self.qtype, qclass: self.qclass }
    }
}

/// The type-specific payload of a resource record. Only the A variant
/// is interpreted by decoding; other record types are carried as an
/// opaque payload, and the remaining variants are representable but
/// never produced by the decoder.
pub enum RData {
    /// An IPv4 address, four bytes.
    A(u8, u8, u8, u8),
    /// A canonical-name payload, carried undecoded.
    CNAME(Vec<u8>),
    /// A name-server payload, carried undecoded.
    NS(Vec<u8>),
    /// A host-information payload, carried undecoded.
    HInfo { cpu: Vec<u8>, os: Vec<u8> },
    /// The raw rdata of a record type that is not interpreted.
    Opaque(Vec<u8>),
}

/// The mathematical value of an `RData`.
pub enum RDataView {
    A(u8, u8, u8, u8),
    CNAME(Seq<u8>),
    NS(Seq<u8>),
    HInfo { cpu: Seq<u8>, os: Seq<u8> },
    Opaque(Seq<u8>),
}

impl View for RData {
    type V = RDataView;

    open spec fn view(&self) -> RDataView {
        match self {
            RData::A(a, b, c, d) => RDataView::A(*a, *b, *c, *d),
            RData::CNAME(v) => RDataView::CNAME(v@),
            RData::NS(v) => RDataView::NS(v@),
            RData::HInfo { cpu, os } => RDataView::HInfo { cpu: cpu@, os: os@ },
            RData::Opaque(v) => RDataView::Opaque(v@),
        }
    }
}

/// A single answer entry: a name, type, class, time-to-live, and the
/// rdata payload whose byte length is `rdlength`.
pub struct ResourceRecord {
    pub name: Vec<u8>,
    pub rtype: u16,
    pub rclass: u16,
    pub ttl: u32,
    pub rdlength: u16,
    pub rdata: RData,
}

/// The mathematical value of a `ResourceRecord`.
pub struct RecordView {
    pub name: Seq<u8>,
    pub rtype: u16,
    pub rclass: u16,
    pub ttl: u32,
    pub rdlength: u16,
    pub rdata: RDataView,
}

impl View for ResourceRecord {
    type V = RecordView;

    open spec fn view(&self) -> RecordView {
        RecordView {
            name: self.name@,
            rtype: self.rtype,
            rclass: self.rclass,
            ttl: self.ttl,
            rdlength: self.rdlength,
            rdata: self.rdata@,
        }
    }
}

/// A whole message: header, questions, answers.
pub struct Message {
    pub header: Header,
    pub questions: Vec<Question>,
    pub answers: Vec<ResourceRecord>,
}

/// The mathematical value of a `Message`.
pub struct MessageView {
    pub header: Header,
    pub questions: Seq<QuestionView>,
    pub answers: Seq<RecordView>,
}

/// The views of a question sequence, elementwise.
pub open spec fn question_views(qs: Seq<Question>) -> Seq<QuestionView> {
    qs.map_values(|q: Question| q@)
}

/// The views of a record sequence, elementwise.
pub open spec fn record_views(rs: Seq<ResourceRecord>) -> Seq<RecordView> {
    rs.map_values(|a: ResourceRecord| a@)
}

impl View for Message {
    type V = MessageView;

    open spec fn view(&self) -> MessageView {
        MessageView {
            header: self.header,
            questions: question_views(self.questions@),
            answers: record_views(self.answers@),
        }
    }
}

impl Message {
    /// The header's section counts agree with the decoded sections.
    pub open spec fn wf(&self) -> bool {
        self.header.questions == self.questions@.len() && self.header.answers
            == self.answers@.len()
    }
}

/// The wire bytes of a question: its name bytes, then the query type
/// and query class, big endian.
pub open spec fn encoded_question(q: QuestionView) -> Seq<u8> {
    q.name + seq![u16_hi(q.qtype), u16_lo(q.qtype), u16_hi(q.qclass), u16_lo(q.qclass)]
}

/// The wire bytes of a question sequence, in order.
pub open spec fn questions_bytes(qs: Seq<QuestionView>) -> Seq<u8>
    decreases qs.len(),
{
    if qs.len() == 0 {
        seq![]
    } else {
        questions_bytes(qs.drop_last()) + encoded_question(qs.last())
    }
}

/// The wire bytes of an outgoing message: the header, then each
/// question. The answer section is never serialized.
pub open spec fn message_bytes(m: MessageView) -> Seq<u8> {
    header_bytes(m.header) + questions_bytes(m.questions)
}

impl Question {
    /// Builds a question from a name (in its wire byte form), a query
    /// type, and a query class.
    pub fn new(name: Vec<u8>, qtype: u16, qclass: u16) -> (r: Question)
        ensures
            r@ == (QuestionView { name: name@, qtype, qclass }),
    {
        Question { name, qtype, qclass }
    }
}

/// Copies a byte vector.
fn clone_bytes(v: &Vec<u8>) -> (r: Vec<u8>)
    ensures
        r@ == v@,
{
    let mut out: Vec<u8> = Vec::new();
    let mut i: usize = 0;
    while i < v.len()
        invariant
            i <= v.len(),
            out@ == v@.take(i as int),
        decreases v.len() - i,
    {
        out.push(v[i]);
        proof {
            assert(out@ =~= v@.take(i + 1));
        }
        i = i + 1;
    }
    proof {
        assert(v@.take(v@.len() as int) =~= v@);
    }
    out
}

impl Clone for Question {
    fn clone(&self) -> (r: Self)
        ensures
            r@ == self@,
    {
        Question { name: clone_bytes(&self.name), qtype: self.qtype, qclass: self.qclass }
    }
}

impl Clone for RData {
    fn clone(&self) -> (r: Self)
        ensures
            r@ == self@,
    {
        match self {
            RData::A(a, b, c, d) => RData::A(*a, *b, *c, *d),
            RData::CNAME(v) => RData::CNAME(clone_bytes(v)),
            RData::NS(v) => RData::NS(clone_bytes(v)),
            RData::HInfo { cpu, os } => RData::HInfo {
                cpu: clone_bytes(cpu),
                os: clone_bytes(os),
            },
            RData::Opaque(v) => RData::Opaque(clone_bytes(v)),
        }
    }
}

impl Clone for ResourceRecord {
    fn clone(&self) -> (r: Self)
        ensures
            r@ == self@,
    {
        ResourceRecord {
            name: clone_bytes(&self.name),
            rtype: self.rtype,
            rclass: self.rclass,
            ttl: self.ttl,
            rdlength: self.rdlength,
            rdata: self.rdata.clone(),
        }
    }
}

impl Clone for Message {
    fn clone(&self) -> (r: Self)
        ensures
            r@ == self@,
    {
        let mut questions: Vec<Question> = Vec::new();
        let mut i: usize = 0;
        while i < self.questions.len()
            invariant
                i <= self.questions@.len(),
                questions@.len() == i,
                question_views(questions@) == question_views(self.questions@).take(i as int),
            decreases self.questions@.len() - i,
        {
            let q = (&self.questions[i]).clone();
            questions.push(q);
            proof {
                assert(question_views(questions@) =~= question_views(self.questions@).take(i + 1));
            }
            i = i + 1;
        }
        let mut answers: Vec<ResourceRecord> = Vec::new();
        let mut j: usize = 0;
        while j < self.answers.len()
            invariant
                j <= self.answers@.len(),
                answers@.len() == j,
                record_views(answers@) == record_views(self.answers@).take(j as int),
            decreases self.answers@.len() - j,
        {
            let a = (&self.answers[j]).clone();
            answers.push(a);
            proof {
                assert(record_views(answers@) =~= record_views(self.answers@).take(j + 1));
            }
            j = j + 1;
        }
        let r = Message { header: self.header, questions, answers };
        proof {
            assert(question_views(self.questions@).take(self.questions@.len() as int)
                =~= question_views(self.questions@));
            assert(record_views(self.answers@).take(self.answers@.len() as int) =~= record_views(
                self.answers@,
            ));
        }
        r
    }
}

impl Serializable for Question {
    open spec fn serialized(&self) -> Seq<u8> {
        encoded_question(self@)
    }

    /// Emits the question's wire bytes: name, type, class.
    fn serialize(&self) -> (r: Vec<u8>) {
        let mut out = clone_bytes(&self.name);
        push_u16_be(&mut out, self.qtype);
        push_u16_be(&mut out, self.qclass);
        proof {
            assert(out@ =~= encoded_question(self@));
        }
        out
    }
}

impl ToBytes for Question {
    fn to_bytes(&self) -> (r: Vec<u8>) {
        self.serialize()
    }
}

impl Serializable for Message {
    open spec fn serialized(&self) -> Seq<u8> {
        message_bytes(self@)
    }

    /// Emits the outgoing wire bytes: the header, then each question.
    fn serialize(&self) -> (r: Vec<u8>) {
        let ghost qviews = self@.questions;
        let mut out = self.header.serialize();
        let mut i: usize = 0;
        proof {
            assert(questions_bytes(qviews.take(0)) =~= Seq::<u8>::empty());
            assert(out@ =~= header_bytes(self.header) + questions_bytes(qviews.take(0)));
        }
        while i < self.questions.len()
            invariant
                i <= self.questions@.len(),
                qviews == self@.questions,
                qviews.len() == self.questions@.len(),
                out@ == header_bytes(self.header) + questions_bytes(qviews.take(i as int)),
            decreases self.questions@.len() - i,
        {
            let mut qb = (&self.questions[i]).serialize();
            let ghost out0 = out@;
            let mut t: usize = 0;
            while t < qb.len()
                invariant
                    t <= qb@.len(),
                    qb@ == encoded_question(qviews[i as int]),
                    i < qviews.len(),
                    out@ == out0 + qb@.take(t as int),
                decreases qb@.len() - t,
            {
                let byte = qb[t];
                out.push(byte);
                proof {
                    assert(out@ =~= out0 + qb@.take(t + 1));
                }
                t = t + 1;
            }
            proof {
                assert(qb@.take(qb@.len() as int) =~= qb@);
                assert(qviews.take(i + 1).drop_last() =~= qviews.take(i as int));
                assert(qviews.take(i + 1).last() == qviews[i as int]);
                assert(out@ =~= header_bytes(self.header) + questions_bytes(qviews.take(i + 1)));
            }
            i = i + 1;
        }
        proof {
            assert(qviews.take(qviews.len() as int) =~= qviews);
        }
        out
    }
}

impl ToBytes for Message {
    fn to_bytes(&self) -> (r: Vec<u8>) {
        self.serialize()
    }
}

} // verus!
