//! The codes with which client services answer.

use axum::http::StatusCode;
use tonic::Code;
use vstd::prelude::*;

use crate::outside::{http_reason_phrase, http_status_number};
use crate::text::{append_signed_decimal, signed_decimal};

verus! {

/// The code of a response by a client service.
#[derive(Debug, Clone, Copy, PartialEq, Eq)]
pub enum ClientCode {
    /// The code of an HTTP response.
    Http(StatusCode),
    /// The code of a gRPC response.
    Grpc(Code),
}

/// The number and the name of a gRPC code.
pub open spec fn grpc_code_text(code: Code) -> Seq<char> {
    match code {
        Code::Ok => "0 OK"@,
        Code::Cancelled => "1 CANCELLED"@,
        Code::Unknown => "2 UNKNOWN"@,
        Code::InvalidArgument => "3 INVALID_ARGUMENT"@,
        Code::DeadlineExceeded => "4 DEADLINE_EXCEEDED"@,
        Code::NotFound => "5 NOT_FOUND"@,
        Code::AlreadyExists => "6 ALREADY_EXISTS"@,
        Code::PermissionDenied => "7 PERMISSION_DENIED"@,
        Code::ResourceExhausted => "8 RESOURCE_EXHAUSTED"@,
        Code::FailedPrecondition => "9 FAILED_PRECONDITION"@,
        Code::Aborted => "10 ABORTED"@,
        Code::OutOfRange => "11 OUT_OF_RANGE"@,
        Code::Unimplemented => "12 UNIMPLEMENTED"@,
        Code::Internal => "13 INTERNAL"@,
        Code::Unavailable => "14 UNAVAILABLE"@,
        Code::DataLoss => "15 DATA_LOSS"@,
        Code::Unauthenticated => "16 UNAUTHENTICATED"@,
    }
}

/// The number and the standard phrase of an HTTP code.
pub open spec fn http_code_text(number: u16) -> Seq<char> {
    signed_decimal(number as int) + " "@ + match http_reason_phrase(number) {
        Some(phrase) => phrase,
        None => "<unknown status code>"@,
    }
}

/// A code with the protocol that it belongs to.
pub open spec fn client_code_text(code: ClientCode) -> Seq<char> {
    match code {
        ClientCode::Http(status) => "HTTP "@ + http_code_text(http_status_number(status)),
        ClientCode::Grpc(grpc) => "gRPC "@ + grpc_code_text(grpc),
    }
}

/// The code is that of a success: `HTTP 200 OK` or `gRPC 0 OK`.
pub open spec fn is_success(code: ClientCode) -> bool {
    match code {
        ClientCode::Http(status) => http_status_number(status) == 200,
        ClientCode::Grpc(grpc) => grpc == Code::Ok,
    }
}

fn grpc_code_str(code: &Code) -> (text: &'static str)
    ensures
        text@ == grpc_code_text(*code),
{
    match code {
        Code::Ok => "0 OK",
        Code::Cancelled => "1 CANCELLED",
        Code::Unknown => "2 UNKNOWN",
        Code::InvalidArgument => "3 INVALID_ARGUMENT",
        Code::DeadlineExceeded => "4 DEADLINE_EXCEEDED",
        Code::NotFound => "5 NOT_FOUND",
        Code::AlreadyExists => "6 ALREADY_EXISTS",
        Code::PermissionDenied => "7 PERMISSION_DENIED",
        Code::ResourceExhausted => "8 RESOURCE_EXHAUSTED",
        Code::FailedPrecondition => "9 FAILED_PRECONDITION",
        Code::Aborted => "10 ABORTED",
        Code::OutOfRange => "11 OUT_OF_RANGE",
        Code::Unimplemented => "12 UNIMPLEMENTED",
        Code::Internal => "13 INTERNAL",
        Code::Unavailable => "14 UNAVAILABLE",
        Code::DataLoss => "15 DATA_LOSS",
        Code::Unauthenticated => "16 UNAUTHENTICATED",
    }
}

impl ClientCode {
    /// Whether the code is that of a success: `HTTP 200 OK` or `gRPC 0 OK`.
    pub fn is_success(&self) -> (success: bool)
        ensures
            success == is_success(*self),
            match *self {
                ClientCode::Http(status) => success == (http_status_number(status) == 200),
                ClientCode::Grpc(code) => success == (code == Code::Ok),
            },
    {
        match self {
            ClientCode::Http(status) => status.as_u16() == 200,
            ClientCode::Grpc(code) => match code {
                Code::Ok => true,
                _ => false,
            },
        }
    }

    /// The code as text: `HTTP 200 OK` and `gRPC 0 OK` are those of success.
    pub fn to_string(&self) -> (text: String)
        ensures
            text@ == client_code_text(*self),
            self matches ClientCode::Http(status) ==> http_status_number(*status) == 200 ==> text@
                == "HTTP 200 OK"@,
            *self == ClientCode::Grpc(Code::Ok) ==> text@ == "gRPC 0 OK"@,
    {
        match self {
            ClientCode::Http(status) => {
                let number: u16 = status.as_u16();
                let reason = match status.canonical_reason() {
                    Some(phrase) => phrase,
                    None => "<unknown status code>",
                };
                let mut text = "HTTP ".to_owned();
                append_signed_decimal(&mut text, number as i32);
                text.append(" ");
                text.append(reason);
                proof {
                    if number == 200 {
                        reveal_strlit("HTTP ");
                        reveal_strlit(" ");
                        reveal_strlit("OK");
                        reveal_strlit("HTTP 200 OK");
                        reveal_with_fuel(crate::text::decimal, 3);
                        assert(text@ =~= "HTTP 200 OK"@);
                    }
                }
                text
            },
            ClientCode::Grpc(code) => {
                let mut text = "gRPC ".to_owned();
                text.append(grpc_code_str(code));
                proof {
                    if code == Code::Ok {
                        reveal_strlit("gRPC ");
                        reveal_strlit("0 OK");
                        reveal_strlit("gRPC 0 OK");
                        assert(text@ =~= "gRPC 0 OK"@);
                    }
                }
                text
            },
        }
    }
}

} // verus!
