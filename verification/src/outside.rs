//! What the library takes from the HTTP and gRPC crates, and what it believes of
//! it.

use vstd::prelude::*;

use crate::health::HealthCheckResponse;

verus! {

/// `http::StatusCode`, carried as an opaque value.
#[verifier::external_type_specification]
#[verifier::external_body]
pub struct ExStatusCode(axum::http::StatusCode);

/// `tonic::Status`, carried as an opaque value.
#[verifier::external_type_specification]
#[verifier::external_body]
pub struct ExStatus(tonic::Status);

/// `tonic::Response`, carried as an opaque value.
#[verifier::external_type_specification]
#[verifier::external_body]
#[verifier::reject_recursive_types(T)]
pub struct ExResponse<T>(tonic::Response<T>);

/// `tonic::Code`, an enumeration without fields whose variants are in plain sight.
#[verifier::external_type_specification]
pub struct ExCode(tonic::Code);

/// The number of an HTTP status code.
pub uninterp spec fn http_status_number(code: axum::http::StatusCode) -> u16;

/// The standard phrase for the number of an HTTP status code, if there is one.
pub uninterp spec fn http_reason_phrase(number: u16) -> Option<Seq<char>>;

/// The gRPC code of a failed call.
pub uninterp spec fn grpc_status_code(status: tonic::Status) -> tonic::Code;

/// How a failed gRPC call describes itself.
pub uninterp spec fn grpc_status_text(status: tonic::Status) -> Seq<char>;

/// The serving status in the message of a gRPC health check response.
pub uninterp spec fn grpc_serving_status(response: tonic::Response<HealthCheckResponse>) -> i32;

/// `StatusCode::as_u16` gives the number of the code. Every way to make a code checks
/// that the number has three digits and does not begin with zero.
pub assume_specification[ axum::http::StatusCode::as_u16 ](
    code: &axum::http::StatusCode,
) -> (number: u16)
    ensures
        number == http_status_number(*code),
        100 <= number <= 999,
;

/// `StatusCode::canonical_reason` looks the number of the code up in a table of
/// standard phrases, in which 200 is "OK". Of the other phrases nothing is said.
pub assume_specification[ axum::http::StatusCode::canonical_reason ](
    code: &axum::http::StatusCode,
) -> (reason: Option<&'static str>)
    ensures
        match reason {
            Some(phrase) => http_reason_phrase(http_status_number(*code)) == Some(phrase@),
            None => http_reason_phrase(http_status_number(*code)) is None,
        },
        http_status_number(*code) == 200 ==> reason is Some && reason->0@ == "OK"@,
;

/// `Status::code` gives the gRPC code of the failed call.
pub assume_specification[ tonic::Status::code ](status: &tonic::Status) -> (code: tonic::Code)
    ensures
        code == grpc_status_code(*status),
;

/// `Display` of `Status` writes the code, the message, the details and the metadata
/// of the failed call. The text is a function of the value of the status; how it is
/// laid out is not said.
#[verifier::external_body]
pub(crate) fn describe_status(status: &tonic::Status) -> (text: String)
    ensures
        text@ == grpc_status_text(*status),
{
    status.to_string()
}

/// `Response::into_inner` gives the message of the response and drops the metadata.
#[verifier::external_body]
pub(crate) fn response_message(response: tonic::Response<HealthCheckResponse>) -> (message:
    HealthCheckResponse)
    ensures
        message.status == grpc_serving_status(response),
{
    response.into_inner()
}

} // verus!
