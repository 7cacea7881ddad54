//! The enumerated header fields of a DNS message, with their wire
//! values. Mapping a wire integer to a variant is a total function:
//! values outside the known set yield a typed error, never a panic.

use vstd::prelude::*;
use crate::errors::DecodeError;

verus! {

/// Whether a message is a query or a response (the header's `qr` bit).
#[derive(Clone, Copy, PartialEq, Eq, Structural, Debug)]
pub enum MessageType {
    Query,
    Response,
}

/// The kind of operation requested (the header's four opcode bits).
#[derive(Clone, Copy, PartialEq, Eq, Structural, Debug)]
pub enum OpCode {
    Query,
    IQuery,
    Status,
    Reserved,
}

/// The class of a question or record.
#[derive(Clone, Copy, PartialEq, Eq, Structural, Debug)]
pub enum DnsClass {
    IN,
    CS,
    CH,
    HS,
    NONE,
    ANY,
}

/// The server-reported outcome of a query (the header's four rcode bits).
#[derive(Clone, Copy, PartialEq, Eq, Structural, Debug)]
pub enum ResponseCode {
    NoError,
    FormatError,
    ServerFailure,
    NameError,
    NotImplemented,
    Refused,
    YxDomain,
    XrRSet,
    NotAuth,
    NotZone,
}

impl MessageType {
    /// The wire value of the `qr` bit.
    pub open spec fn spec_value(self) -> u16 {
        match self {
            MessageType::Query => 0,
            MessageType::Response => 1,
        }
    }

    #[verifier::when_used_as_spec(spec_value)]
    pub fn value(self) -> (r: u16)
        ensures
            r == self.spec_value(),
    {
        match self {
            MessageType::Query => 0,
            MessageType::Response => 1,
        }
    }

    /// The variant for a wire `qr` bit. Total: the bit has only two values.
    pub open spec fn spec_from_bit(value: u16) -> MessageType {
        if value == 0 {
            MessageType::Query
        } else {
            MessageType::Response
        }
    }

    #[verifier::when_used_as_spec(spec_from_bit)]
    pub fn from_bit(value: u16) -> (r: MessageType)
        ensures
            r == MessageType::spec_from_bit(value),
    {
        if value == 0 {
            MessageType::Query
        } else {
            MessageType::Response
        }
    }

    /// A printable name for the variant.
    pub fn name(self) -> (r: &'static str)
        ensures
            self is Query ==> r@ == "Query"@,
            self is Response ==> r@ == "Response"@,
    {
        match self {
            MessageType::Query => "Query",
            MessageType::Response => "Response",
        }
    }
}

impl OpCode {
    /// The wire value of the four opcode bits.
    pub open spec fn spec_value(self) -> u16 {
        match self {
            OpCode::Query => 0,
            OpCode::IQuery => 1,
            OpCode::Status => 2,
            OpCode::Reserved => 3,
        }
    }

    #[verifier::when_used_as_spec(spec_value)]
    pub fn value(self) -> (r: u16)
        ensures
            r == self.spec_value(),
    {
        match self {
            OpCode::Query => 0,
            OpCode::IQuery => 1,
            OpCode::Status => 2,
            OpCode::Reserved => 3,
        }
    }

    /// The variant for a wire opcode, or `UnsupportedOpcode` for a value
    /// outside the known set.
    pub open spec fn spec_from_value(value: u16) -> Result<OpCode, DecodeError> {
        if value == 0 {
            Ok(OpCode::Query)
        } else if value == 1 {
            Ok(OpCode::IQuery)
        } else if value == 2 {
            Ok(OpCode::Status)
        } else if value == 3 {
            Ok(OpCode::Reserved)
        } else {
            Err(DecodeError::UnsupportedOpcode)
        }
    }

    #[verifier::when_used_as_spec(spec_from_value)]
    pub fn from_value(value: u16) -> (r: Result<OpCode, DecodeError>)
        ensures
            r == OpCode::spec_from_value(value),
    {
        match value {
            0 => Ok(OpCode::Query),
            1 => Ok(OpCode::IQuery),
            2 => Ok(OpCode::Status),
            3 => Ok(OpCode::Reserved),
            _ => Err(DecodeError::UnsupportedOpcode),
        }
    }

    /// A printable name for the variant.
    pub fn name(self) -> (r: &'static str)
        ensures
            self is Query ==> r@ == "Query"@,
            self is IQuery ==> r@ == "IQuery"@,
            self is Status ==> r@ == "Status"@,
            self is Reserved ==> r@ == "Reserved"@,
    {
        match self {
            OpCode::Query => "Query",
            OpCode::IQuery => "IQuery",
            OpCode::Status => "Status",
            OpCode::Reserved => "Reserved",
        }
    }
}

impl DnsClass {
    /// The wire value of the class.
    pub open spec fn spec_value(self) -> u16 {
        match self {
            DnsClass::IN => 1,
            DnsClass::CS => 2,
            DnsClass::CH => 3,
            DnsClass::HS => 4,
            DnsClass::NONE => 254,
            DnsClass::ANY => 255,
        }
    }

    #[verifier::when_used_as_spec(spec_value)]
    pub fn value(self) -> (r: u16)
        ensures
            r == self.spec_value(),
    {
        match self {
            DnsClass::IN => 1,
            DnsClass::CS => 2,
            DnsClass::CH => 3,
            DnsClass::HS => 4,
            DnsClass::NONE => 254,
            DnsClass::ANY => 255,
        }
    }
}

impl ResponseCode {
    /// The wire value of the four rcode bits.
    pub open spec fn spec_value(self) -> u16 {
        match self {
            ResponseCode::NoError => 0,
            ResponseCode::FormatError => 1,
            ResponseCode::ServerFailure => 2,
            ResponseCode::NameError => 3,
            ResponseCode::NotImplemented => 4,
            ResponseCode::Refused => 5,
            ResponseCode::YxDomain => 6,
            ResponseCode::XrRSet => 7,
            ResponseCode::NotAuth => 8,
            ResponseCode::NotZone => 9,
        }
    }

    #[verifier::when_used_as_spec(spec_value)]
    pub fn value(self) -> (r: u16)
        ensures
            r == self.spec_value(),
    {
        match self {
            ResponseCode::NoError => 0,
            ResponseCode::FormatError => 1,
            ResponseCode::ServerFailure => 2,
            ResponseCode::NameError => 3,
            ResponseCode::NotImplemented => 4,
            ResponseCode::Refused => 5,
            ResponseCode::YxDomain => 6,
            ResponseCode::XrRSet => 7,
            ResponseCode::NotAuth => 8,
            ResponseCode::NotZone => 9,
        }
    }

    /// The variant for a wire rcode, or `UnsupportedResponseCode` for a
    /// value outside the known set.
    pub open spec fn spec_from_value(value: u16) -> Result<ResponseCode, DecodeError> {
        if value == 0 {
            Ok(ResponseCode::NoError)
        } else if value == 1 {
            Ok(ResponseCode::FormatError)
        } else if value == 2 {
            Ok(ResponseCode::ServerFailure)
        } else if value == 3 {
            Ok(ResponseCode::NameError)
        } else if value == 4 {
            Ok(ResponseCode::NotImplemented)
        } else if value == 5 {
            Ok(ResponseCode::Refused)
        } else if value == 6 {
            Ok(ResponseCode::YxDomain)
        } else if value == 7 {
            Ok(ResponseCode::XrRSet)
        } else if value == 8 {
            Ok(ResponseCode::NotAuth)
        } else if value == 9 {
            Ok(ResponseCode::NotZone)
        } else {
            Err(DecodeError::UnsupportedResponseCode)
        }
    }

    #[verifier::when_used_as_spec(spec_from_value)]
    pub fn from_value(value: u16) -> (r: Result<ResponseCode, DecodeError>)
        ensures
            r == ResponseCode::spec_from_value(value),
    {
        match value {
            0 => Ok(ResponseCode::NoError),
            1 => Ok(ResponseCode::FormatError),
            2 => Ok(ResponseCode::ServerFailure),
            3 => Ok(ResponseCode::NameError),
            4 => Ok(ResponseCode::NotImplemented),
            5 => Ok(ResponseCode::Refused),
            6 => Ok(ResponseCode::YxDomain),
            7 => Ok(ResponseCode::XrRSet),
            8 => Ok(ResponseCode::NotAuth),
            9 => Ok(ResponseCode::NotZone),
            _ => Err(DecodeError::UnsupportedResponseCode),
        }
    }

    /// A printable name for the variant.
    pub fn name(self) -> (r: &'static str)
        ensures
            self is NoError ==> r@ == "NoError"@,
            self is FormatError ==> r@ == "FormatError"@,
            self is ServerFailure ==> r@ == "ServerFailure"@,
            self is NameError ==> r@ == "NameError"@,
            self is NotImplemented ==> r@ == "NotImplemented"@,
            self is Refused ==> r@ == "Refused"@,
            self is YxDomain ==> r@ == "YxDomain"@,
            self is XrRSet ==> r@ == "XrRSet"@,
            self is NotAuth ==> r@ == "NotAuth"@,
            self is NotZone ==> r@ == "NotZone"@,
    {
        match self {
            ResponseCode::NoError => "NoError",
            ResponseCode::FormatError => "FormatError",
            ResponseCode::ServerFailure => "ServerFailure",
            ResponseCode::NameError => "NameError",
            ResponseCode::NotImplemented => "NotImplemented",
            ResponseCode::Refused => "Refused",
            ResponseCode::YxDomain => "YxDomain",
            ResponseCode::XrRSet => "XrRSet",
            ResponseCode::NotAuth => "NotAuth",
            ResponseCode::NotZone => "NotZone",
        }
    }
}

} // verus!
