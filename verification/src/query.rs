//! Construction of outgoing queries: validate the name, draw a random
//! transaction id, and assemble a standard recursion-desired query
//! with one class-IN, type-A question.

use vstd::prelude::*;
use crate::enums::{MessageType, OpCode, ResponseCode};
use crate::errors::DnsValidation;
use crate::header::Header;
use crate::message::{Message, MessageView, Question, QuestionView};
use crate::name::{encode_dns_name, encoded_name, name_bytes, validate_dns_name, validate_spec};

verus! {

/// The wire value of the A record type.
pub const TYPE_A: u16 = 1;

/// The wire value of the IN class.
pub const CLASS_IN: u16 = 1;

/// The outgoing query message for a name (given as its bytes) under a
/// transaction id: a standard query with recursion desired, all other
/// flags clear, response code `NoError`, one class-IN type-A question
/// holding the encoded name, and no answers.
pub open spec fn query_view(name_b: Seq<u8>, id: u16) -> MessageView {
    MessageView {
        header: Header {
            id,
            message_type: MessageType::Query,
            op_code: OpCode::Query,
            authoritative_answer: false,
            truncated: false,
            recursion_desired: true,
            recursion_available: false,
            z: false,
            response_code: ResponseCode::NoError,
            questions: 1,
            answers: 0,
            authorities: 0,
            additionals: 0,
        },
        questions: seq![
            QuestionView { name: encoded_name(name_b), qtype: TYPE_A, qclass: CLASS_IN },
        ],
        answers: seq![],
    }
}

/// Relies on rand::random, which draws a fresh value from the
/// thread-local generator; nothing is assumed of the value drawn.
#[verifier::external_body]
fn random_u16() -> u16 {
    rand::random::<u16>()
}

/// Validates the name and, when it passes, builds the outgoing query
/// under a fresh random transaction id; otherwise returns the
/// validation verdict. No transaction id is promised: only that the
/// rest of the message is the canonical query for the name.
pub fn create_query(dns_name: &String) -> (r: Result<Message, DnsValidation>)
    ensures
        match r {
            Ok(m) => validate_spec(name_bytes(dns_name@)) == DnsValidation::Valid && m@
                == query_view(name_bytes(dns_name@), m.header.id) && m.wf(),
            Err(e) => e == validate_spec(name_bytes(dns_name@)) && e != DnsValidation::Valid,
        },
{
    let dns_validation = validate_dns_name(dns_name);
    if dns_validation != DnsValidation::Valid {
        return Err(dns_validation);
    }
    let encoded_dns_name = encode_dns_name(dns_name.as_str());
    let mut questions: Vec<Question> = Vec::new();
    questions.push(Question::new(encoded_dns_name, TYPE_A, CLASS_IN));
    let message = Message {
        header: Header {
            id: random_u16(),
            message_type: MessageType::Query,
            op_code: OpCode::Query,
            authoritative_answer: false,
            truncated: false,
            recursion_desired: true,
            recursion_available: false,
            z: false,
            response_code: ResponseCode::NoError,
            questions: 1,
            answers: 0,
            authorities: 0,
            additionals: 0,
        },
        questions,
        answers: Vec::new(),
    };
    proof {
        let qv = query_view(name_bytes(dns_name@), message.header.id);
        assert(message@.questions =~= qv.questions);
        assert(message@.answers =~= qv.answers);
    }
    Ok(message)
}

} // verus!
