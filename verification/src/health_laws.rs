//! Laws of health checks.

use axum::http::StatusCode;
use tonic::{Code, Response, Status};
use vstd::prelude::*;

use crate::client_code::{client_code_text, grpc_code_text, is_success, ClientCode};
use crate::health::{
    all_groups_known, cache_text, optional_text, reason_for_serving, result_of_answer,
    result_of_failure, result_of_grpc, result_text, section, sections, serialized_form,
    service_lines, status_for_http, status_for_serving, status_name, HealthCheckCache,
    HealthCheckCacheView, HealthCheckResponse, HealthCheckResult, HealthCheckResultView,
    HealthStatus, SerializedHealthCheckResult, SerializedView,
};
use crate::outside::{
    grpc_serving_status, grpc_status_code, grpc_status_text, http_reason_phrase,
    http_status_number,
};
use crate::text::{
    decimal, joined, law_decimal_reads_back, law_joining_is_compositional,
    law_signed_decimals_tell_numbers_apart, signed_decimal,
};

verus! {

/// Different statuses have different names, so that a name read back gives the
/// status that was written.
pub proof fn law_names_tell_statuses_apart(a: HealthStatus, b: HealthStatus)
    requires
        status_name(a) == status_name(b),
    ensures
        a == b,
{
    reveal_strlit("HEALTHY");
    reveal_strlit("UNHEALTHY");
    reveal_strlit("UNKNOWN");
    assert("HEALTHY"@.len() == 7 && "UNHEALTHY"@.len() == 9 && "UNKNOWN"@.len() == 7);
    assert("HEALTHY"@[0] == 'H' && "UNKNOWN"@[0] == 'U');
}

/// An answer to a gRPC health check gives a reason exactly when it does not show the
/// service to be healthy.
pub proof fn law_answer_has_reason_unless_healthy(status: i32)
    ensures
        reason_for_serving(status) is None <==> status_for_serving(status)
            == HealthStatus::Healthy,
        result_of_answer(status).response_code == ClientCode::Grpc(Code::Ok),
{
}

/// A gRPC health check that failed says nothing of the health of the service, and
/// always says why.
pub proof fn law_failure_is_unknown_with_reason(code: Code, description: Seq<char>)
    ensures
        result_of_failure(code, description).health_status == HealthStatus::Unknown,
        result_of_failure(code, description).reason is Some,
        result_of_failure(code, description).response_code == ClientCode::Grpc(code),
{
}

/// A service is healthy for every HTTP success and unhealthy for every HTTP server
/// error; of every other code nothing is concluded.
pub proof fn law_http_classes(number: u16)
    ensures
        status_for_http(number) == HealthStatus::Healthy <==> number / 100 == 2,
        status_for_http(number) == HealthStatus::Unhealthy <==> number / 100 == 5,
        status_for_http(number) == HealthStatus::Unknown <==> number / 100 != 2 && number / 100
            != 5,
{
}

/// Of a healthy service the status alone is written. Of any other the status and the
/// reason are written, and the response code unless it is that of a success.
pub proof fn law_code_is_written_unless_successful(result: HealthCheckResultView)
    ensures
        serialized_form(result) is Status <==> result.health_status == HealthStatus::Healthy,
        match serialized_form(result) {
            SerializedView::Status(health_status) => health_status == result.health_status,
            SerializedView::Record { health_status, response_code, reason } => {
                &&& health_status == result.health_status
                &&& response_code is None <==> is_success(result.response_code)
                &&& response_code is Some ==> response_code == Some(
                    client_code_text(result.response_code),
                )
                &&& reason == result.reason
            },
        },
{
}

/// A gRPC health check that was answered never has its code written, whatever the
/// answer says of the service.
pub proof fn law_answer_has_no_code_written(status: i32)
    ensures
        match serialized_form(result_of_answer(status)) {
            SerializedView::Status(_) => true,
            SerializedView::Record { response_code, .. } => response_code is None,
        },
{
}

/// A cache is shown with all three sections exactly when it is initialized.
pub proof fn law_initialized_cache_shows_every_group(cache: HealthCheckCacheView)
    ensures
        all_groups_known(cache) <==> sections(cache).len() == 3,
{
}

/// Each status goes by its own name.
pub proof fn law_statuses_go_by_their_names(status: HealthStatus)
    ensures
        status == HealthStatus::Healthy <==> status_name(status) == "HEALTHY"@,
        status == HealthStatus::Unhealthy <==> status_name(status) == "UNHEALTHY"@,
        status == HealthStatus::Unknown <==> status_name(status) == "UNKNOWN"@,
{
    reveal_strlit("HEALTHY");
    reveal_strlit("UNHEALTHY");
    reveal_strlit("UNKNOWN");
    assert("HEALTHY"@[0] != "UNHEALTHY"@[0]);
    assert("HEALTHY"@[0] != "UNKNOWN"@[0]);
    assert("UNHEALTHY"@.len() != "UNKNOWN"@.len());
}

/// Only SERVING shows a service to be healthy and only NOT_SERVING shows it to be
/// unhealthy.
pub proof fn law_serving_status_decides(status: i32)
    ensures
        status_for_serving(status) == HealthStatus::Healthy <==> status == 1,
        status_for_serving(status) == HealthStatus::Unhealthy <==> status == 2,
        reason_for_serving(status) is None <==> status == 1,
{
}

/// The reason of an answer tells which serving status it had: the known ones by their
/// names, any other by its number.
pub proof fn law_reasons_tell_serving_statuses_apart(a: i32, b: i32)
    ensures
        reason_for_serving(a) == reason_for_serving(b) ==> a == b,
        a == 0 ==> reason_for_serving(a) == Some(
            "from gRPC health check serving status: UNKNOWN"@,
        ),
        a == 2 ==> reason_for_serving(a) == Some(
            "from gRPC health check serving status: NOT_SERVING"@,
        ),
        a == 3 ==> reason_for_serving(a) == Some(
            "from gRPC health check serving status: SERVICE_UNKNOWN"@,
        ),
        a < 0 || a > 3 ==> reason_for_serving(a) == Some(
            "Unexpected gRPC health check serving status: "@ + signed_decimal(a as int),
        ),
{
    reveal_strlit("from gRPC health check serving status: UNKNOWN");
    reveal_strlit("from gRPC health check serving status: NOT_SERVING");
    reveal_strlit("from gRPC health check serving status: SERVICE_UNKNOWN");
    reveal_strlit("Unexpected gRPC health check serving status: ");
    let unexpected = "Unexpected gRPC health check serving status: "@;
    let unknown = "from gRPC health check serving status: UNKNOWN"@;
    let not_serving = "from gRPC health check serving status: NOT_SERVING"@;
    let service_unknown = "from gRPC health check serving status: SERVICE_UNKNOWN"@;
    assert(unknown.len() < not_serving.len() < service_unknown.len());
    assert(unknown[0] == 'f' && not_serving[0] == 'f' && service_unknown[0] == 'f');
    assert((unexpected + signed_decimal(a as int))[0] == 'U');
    assert((unexpected + signed_decimal(b as int))[0] == 'U');
    assert((unexpected + signed_decimal(a as int)).skip(unexpected.len() as int)
        =~= signed_decimal(a as int));
    assert((unexpected + signed_decimal(b as int)).skip(unexpected.len() as int)
        =~= signed_decimal(b as int));
    law_signed_decimals_tell_numbers_apart(a as int, b as int);
}

/// The outcome of a gRPC health check decides its result. An answer shows the service
/// to be healthy exactly when its serving status is SERVING, and then gives no reason;
/// it shows the service to be unhealthy exactly when it is NOT_SERVING. A failure leaves
/// the health unknown, and keeps its code and its description.
pub proof fn law_outcome_decides_result(
    outcome: Result<Response<HealthCheckResponse>, Status>,
)
    ensures
        match outcome {
            Ok(response) => {
                let result = result_of_grpc(outcome);
                &&& result.health_status == HealthStatus::Healthy <==> grpc_serving_status(response)
                    == 1
                &&& result.health_status == HealthStatus::Unhealthy <==> grpc_serving_status(
                    response,
                ) == 2
                &&& result.response_code == ClientCode::Grpc(Code::Ok)
                &&& result.reason is None <==> grpc_serving_status(response) == 1
                &&& result.reason == reason_for_serving(grpc_serving_status(response))
            },
            Err(status) => {
                let result = result_of_grpc(outcome);
                &&& result.health_status == HealthStatus::Unknown
                &&& result.response_code == ClientCode::Grpc(grpc_status_code(status))
                &&& result.reason == Some(
                    "gRPC health check failed: "@ + grpc_status_text(status),
                )
            },
        },
{
}

/// The number of a gRPC code.
pub open spec fn grpc_code_number(code: Code) -> nat {
    match code {
        Code::Ok => 0,
        Code::Cancelled => 1,
        Code::Unknown => 2,
        Code::InvalidArgument => 3,
        Code::DeadlineExceeded => 4,
        Code::NotFound => 5,
        Code::AlreadyExists => 6,
        Code::PermissionDenied => 7,
        Code::ResourceExhausted => 8,
        Code::FailedPrecondition => 9,
        Code::Aborted => 10,
        Code::OutOfRange => 11,
        Code::Unimplemented => 12,
        Code::Internal => 13,
        Code::Unavailable => 14,
        Code::DataLoss => 15,
        Code::Unauthenticated => 16,
    }
}

/// The name of a gRPC code.
pub open spec fn grpc_code_name(code: Code) -> Seq<char> {
    match code {
        Code::Ok => "OK"@,
        Code::Cancelled => "CANCELLED"@,
        Code::Unknown => "UNKNOWN"@,
        Code::InvalidArgument => "INVALID_ARGUMENT"@,
        Code::DeadlineExceeded => "DEADLINE_EXCEEDED"@,
        Code::NotFound => "NOT_FOUND"@,
        Code::AlreadyExists => "ALREADY_EXISTS"@,
        Code::PermissionDenied => "PERMISSION_DENIED"@,
        Code::ResourceExhausted => "RESOURCE_EXHAUSTED"@,
        Code::FailedPrecondition => "FAILED_PRECONDITION"@,
        Code::Aborted => "ABORTED"@,
        Code::OutOfRange => "OUT_OF_RANGE"@,
        Code::Unimplemented => "UNIMPLEMENTED"@,
        Code::Internal => "INTERNAL"@,
        Code::Unavailable => "UNAVAILABLE"@,
        Code::DataLoss => "DATA_LOSS"@,
        Code::Unauthenticated => "UNAUTHENTICATED"@,
    }
}

/// A gRPC code is shown by its number in decimal and its name.
pub proof fn law_grpc_codes_show_number_and_name(code: Code)
    ensures
        grpc_code_text(code) == decimal(grpc_code_number(code)) + " "@ + grpc_code_name(code),
{
    reveal_with_fuel(decimal, 3);
    reveal_strlit(" ");
    match code {
        Code::Ok => {
            reveal_strlit("OK");
            reveal_strlit("0 OK");
            assert(grpc_code_text(code) =~= decimal(0) + " "@ + "OK"@);
        },
        Code::Cancelled => {
            reveal_strlit("CANCELLED");
            reveal_strlit("1 CANCELLED");
            assert(grpc_code_text(code) =~= decimal(1) + " "@ + "CANCELLED"@);
        },
        Code::Unknown => {
            reveal_strlit("UNKNOWN");
            reveal_strlit("2 UNKNOWN");
            assert(grpc_code_text(code) =~= decimal(2) + " "@ + "UNKNOWN"@);
        },
        Code::InvalidArgument => {
            reveal_strlit("INVALID_ARGUMENT");
            reveal_strlit("3 INVALID_ARGUMENT");
            assert(grpc_code_text(code) =~= decimal(3) + " "@ + "INVALID_ARGUMENT"@);
        },
        Code::DeadlineExceeded => {
            reveal_strlit("DEADLINE_EXCEEDED");
            reveal_strlit("4 DEADLINE_EXCEEDED");
            assert(grpc_code_text(code) =~= decimal(4) + " "@ + "DEADLINE_EXCEEDED"@);
        },
        Code::NotFound => {
            reveal_strlit("NOT_FOUND");
            reveal_strlit("5 NOT_FOUND");
            assert(grpc_code_text(code) =~= decimal(5) + " "@ + "NOT_FOUND"@);
        },
        Code::AlreadyExists => {
            reveal_strlit("ALREADY_EXISTS");
            reveal_strlit("6 ALREADY_EXISTS");
            assert(grpc_code_text(code) =~= decimal(6) + " "@ + "ALREADY_EXISTS"@);
        },
        Code::PermissionDenied => {
            reveal_strlit("PERMISSION_DENIED");
            reveal_strlit("7 PERMISSION_DENIED");
            assert(grpc_code_text(code) =~= decimal(7) + " "@ + "PERMISSION_DENIED"@);
        },
        Code::ResourceExhausted => {
            reveal_strlit("RESOURCE_EXHAUSTED");
            reveal_strlit("8 RESOURCE_EXHAUSTED");
            assert(grpc_code_text(code) =~= decimal(8) + " "@ + "RESOURCE_EXHAUSTED"@);
        },
        Code::FailedPrecondition => {
            reveal_strlit("FAILED_PRECONDITION");
            reveal_strlit("9 FAILED_PRECONDITION");
            assert(grpc_code_text(code) =~= decimal(9) + " "@ + "FAILED_PRECONDITION"@);
        },
        Code::Aborted => {
            reveal_strlit("ABORTED");
            reveal_strlit("10 ABORTED");
            assert(grpc_code_text(code) =~= decimal(10) + " "@ + "ABORTED"@);
        },
        Code::OutOfRange => {
            reveal_strlit("OUT_OF_RANGE");
            reveal_strlit("11 OUT_OF_RANGE");
            assert(grpc_code_text(code) =~= decimal(11) + " "@ + "OUT_OF_RANGE"@);
        },
        Code::Unimplemented => {
            reveal_strlit("UNIMPLEMENTED");
            reveal_strlit("12 UNIMPLEMENTED");
            assert(grpc_code_text(code) =~= decimal(12) + " "@ + "UNIMPLEMENTED"@);
        },
        Code::Internal => {
            reveal_strlit("INTERNAL");
            reveal_strlit("13 INTERNAL");
            assert(grpc_code_text(code) =~= decimal(13) + " "@ + "INTERNAL"@);
        },
        Code::Unavailable => {
            reveal_strlit("UNAVAILABLE");
            reveal_strlit("14 UNAVAILABLE");
            assert(grpc_code_text(code) =~= decimal(14) + " "@ + "UNAVAILABLE"@);
        },
        Code::DataLoss => {
            reveal_strlit("DATA_LOSS");
            reveal_strlit("15 DATA_LOSS");
            assert(grpc_code_text(code) =~= decimal(15) + " "@ + "DATA_LOSS"@);
        },
        Code::Unauthenticated => {
            reveal_strlit("UNAUTHENTICATED");
            reveal_strlit("16 UNAUTHENTICATED");
            assert(grpc_code_text(code) =~= decimal(16) + " "@ + "UNAUTHENTICATED"@);
        },
    }
}

/// Different gRPC codes are shown differently.
pub proof fn law_texts_tell_grpc_codes_apart(a: Code, b: Code)
    requires
        client_code_text(ClientCode::Grpc(a)) == client_code_text(ClientCode::Grpc(b)),
    ensures
        a == b,
{
    reveal_strlit("gRPC ");
    let text_a = client_code_text(ClientCode::Grpc(a));
    let text_b = client_code_text(ClientCode::Grpc(b));
    assert(text_a.skip(5) =~= grpc_code_text(a));
    assert(text_b.skip(5) =~= grpc_code_text(b));
    law_grpc_codes_show_number_and_name(a);
    law_grpc_codes_show_number_and_name(b);
    lemma_number_in_front(
        grpc_code_number(a),
        grpc_code_name(a),
        grpc_code_number(b),
        grpc_code_name(b),
    );
}

/// What is written before the first space tells the number apart.
proof fn lemma_number_in_front(a: nat, rest_a: Seq<char>, b: nat, rest_b: Seq<char>)
    requires
        decimal(a) + " "@ + rest_a == decimal(b) + " "@ + rest_b,
    ensures
        a == b,
        rest_a == rest_b,
{
    reveal_strlit(" ");
    law_decimal_reads_back(a);
    law_decimal_reads_back(b);
    let text = decimal(a) + " "@ + rest_a;
    let same = decimal(b) + " "@ + rest_b;
    let len_a = decimal(a).len() as int;
    let len_b = decimal(b).len() as int;
    assert(text[len_a] == ' ');
    assert(same[len_b] == ' ');
    if len_a < len_b {
        assert(same[len_a] == decimal(b)[len_a]);
    }
    if len_b < len_a {
        assert(text[len_b] == decimal(a)[len_b]);
    }
    assert(text.take(len_a) =~= decimal(a));
    assert(same.take(len_b) =~= decimal(b));
    assert(text.skip(len_a + 1) =~= rest_a);
    assert(same.skip(len_b + 1) =~= rest_b);
}

/// An HTTP code is shown by its number in decimal and the standard phrase for it, or a
/// note that there is none.
pub proof fn law_http_codes_show_number_and_phrase(status: StatusCode)
    ensures
        ({
            let number = http_status_number(status);
            let text = client_code_text(ClientCode::Http(status));
            &&& http_reason_phrase(number) matches Some(phrase) ==> text == "HTTP "@ + decimal(
                number as nat,
            ) + " "@ + phrase
            &&& http_reason_phrase(number) is None ==> text == "HTTP "@ + decimal(number as nat)
                + " "@ + "<unknown status code>"@
        }),
{
    let number = http_status_number(status);
    let text = client_code_text(ClientCode::Http(status));
    match http_reason_phrase(number) {
        Some(phrase) => {
            assert(text =~= "HTTP "@ + decimal(number as nat) + " "@ + phrase);
        },
        None => {
            assert(text =~= "HTTP "@ + decimal(number as nat) + " "@ + "<unknown status code>"@);
        },
    }
}

/// Different numbers of HTTP codes are shown differently.
pub proof fn law_texts_tell_http_numbers_apart(a: StatusCode, b: StatusCode)
    requires
        client_code_text(ClientCode::Http(a)) == client_code_text(ClientCode::Http(b)),
    ensures
        http_status_number(a) == http_status_number(b),
{
    reveal_strlit("HTTP ");
    law_http_codes_show_number_and_phrase(a);
    law_http_codes_show_number_and_phrase(b);
    let number_a = http_status_number(a);
    let number_b = http_status_number(b);
    let rest_a = match http_reason_phrase(number_a) {
        Some(phrase) => phrase,
        None => "<unknown status code>"@,
    };
    let rest_b = match http_reason_phrase(number_b) {
        Some(phrase) => phrase,
        None => "<unknown status code>"@,
    };
    let text_a = client_code_text(ClientCode::Http(a));
    let text_b = client_code_text(ClientCode::Http(b));
    assert(text_a.skip(5) =~= decimal(number_a as nat) + " "@ + rest_a);
    assert(text_b.skip(5) =~= decimal(number_b as nat) + " "@ + rest_b);
    lemma_number_in_front(number_a as nat, rest_a, number_b as nat, rest_b);
}

/// A code shows its protocol: what is shown for an HTTP code and for a gRPC code differs.
pub proof fn law_codes_show_their_protocol(status: StatusCode, code: Code)
    ensures
        client_code_text(ClientCode::Http(status)).take(5) == "HTTP "@,
        client_code_text(ClientCode::Grpc(code)).take(5) == "gRPC "@,
        client_code_text(ClientCode::Http(status)) != client_code_text(ClientCode::Grpc(code)),
{
    reveal_strlit("HTTP ");
    reveal_strlit("gRPC ");
    let http = client_code_text(ClientCode::Http(status));
    let grpc = client_code_text(ClientCode::Grpc(code));
    assert(http.take(5) =~= "HTTP "@);
    assert(grpc.take(5) =~= "gRPC "@);
    assert(http[0] == 'H');
    assert(grpc[0] == 'g');
}

/// A code is that of a success exactly when it shows as `HTTP 200` or as `gRPC 0 OK`.
pub proof fn law_success_shows_in_the_code(status: StatusCode, code: Code)
    ensures
        is_success(ClientCode::Http(status)) <==> http_status_number(status) == 200,
        is_success(ClientCode::Http(status)) <==> "HTTP 200 "@.is_prefix_of(
            client_code_text(ClientCode::Http(status)),
        ),
        is_success(ClientCode::Grpc(code)) <==> client_code_text(ClientCode::Grpc(code))
            == "gRPC 0 OK"@,
{
    reveal_strlit("HTTP ");
    reveal_strlit(" ");
    reveal_strlit("HTTP 200 ");
    reveal_strlit("gRPC ");
    reveal_strlit("0 OK");
    reveal_strlit("gRPC 0 OK");
    assert(client_code_text(ClientCode::Grpc(Code::Ok)) =~= "gRPC 0 OK"@);
    if client_code_text(ClientCode::Grpc(code)) == "gRPC 0 OK"@ {
        law_texts_tell_grpc_codes_apart(code, Code::Ok);
    }
    let number = http_status_number(status);
    let digits = decimal(number as nat);
    let text = client_code_text(ClientCode::Http(status));
    law_decimal_reads_back(number as nat);
    reveal_with_fuel(decimal, 3);
    assert(decimal(200) =~= seq!['2', '0', '0']);
    if number == 200 {
        assert(text.take(9) =~= "HTTP 200 "@);
    }
    if "HTTP 200 "@.is_prefix_of(text) {
        assert(text.take(9) == "HTTP 200 "@);
        assert(text[5] == text.take(9)[5] && text[6] == text.take(9)[6] && text[7] == text.take(
            9,
        )[7] && text[8] == text.take(9)[8]);
        assert(text[5 + digits.len() as int] == ' ');
        assert(forall|i: int| 0 <= i < digits.len() ==> text[5 + i] == #[trigger] digits[i]);
        assert(digits.len() == 3) by {
            if digits.len() > 3 {
                assert(text[8] == digits[3]);
            }
        }
        assert(text[5] == digits[0] && text[6] == digits[1] && text[7] == digits[2]);
        assert(digits =~= decimal(200));
        law_decimal_reads_back(200);
    }
}

/// A result shows its status by name and its code in brackets; a reason is shown behind
/// what would be shown without it, on a line of its own.
pub proof fn law_result_shows_status_code_and_reason(
    result: HealthCheckResultView,
    without: HealthCheckResultView,
)
    requires
        without.health_status == result.health_status,
        without.response_code == result.response_code,
        without.reason is None,
    ensures
        result_text(without) == status_name(result.health_status) + " ("@ + client_code_text(
            result.response_code,
        ) + ")"@,
        result.reason is None ==> result_text(result) == result_text(without),
        result.reason matches Some(reason) ==> result_text(result) == result_text(without)
            + "\n\t\t\t"@ + reason,
{
}

/// An optional string as a mathematical value is there exactly when the string is.
pub proof fn law_optional_text_is_that_of_the_string(text: Option<String>)
    ensures
        text is None <==> optional_text(text) is None,
        text matches Some(content) ==> optional_text(text) == Some(content@),
{
}

/// A result as a mathematical value has all that the result has.
pub proof fn law_view_of_result_has_every_field(result: HealthCheckResult)
    ensures
        result@.health_status == result.health_status,
        result@.response_code == result.response_code,
        result.reason is None ==> result@.reason is None,
        result.reason matches Some(reason) ==> result@.reason == Some(reason@),
{
}

/// What is written of a result, as a mathematical value, has all that is written.
pub proof fn law_view_of_written_has_every_field(written: SerializedHealthCheckResult)
    ensures
        match written {
            SerializedHealthCheckResult::Status(status) => written@ == SerializedView::Status(
                status,
            ),
            SerializedHealthCheckResult::Record { health_status, response_code, reason } => {
                &&& written@ is Record
                &&& written@->health_status == health_status
                &&& response_code is None ==> written@->response_code is None
                &&& response_code matches Some(code) ==> written@->response_code == Some(code@)
                &&& reason is None ==> written@->reason is None
                &&& reason matches Some(why) ==> written@->reason == Some(why@)
            },
        },
{
}

/// A cache as a mathematical value lists, group by group, each service once, by its name
/// and with its result.
pub proof fn law_view_of_cache_lists_every_service(cache: HealthCheckCache, i: int)
    ensures
        cache@.detectors.len() == cache.detectors.entries().len(),
        cache@.chunkers.len() == cache.chunkers.entries().len(),
        cache@.generation.len() == cache.generation.entries().len(),
        0 <= i < cache@.detectors.len() ==> cache@.detectors[i] == (
            cache.detectors.entries()[i].0,
            cache.detectors.entries()[i].1@,
        ),
        0 <= i < cache@.chunkers.len() ==> cache@.chunkers[i] == (
            cache.chunkers.entries()[i].0,
            cache.chunkers.entries()[i].1@,
        ),
        0 <= i < cache@.generation.len() ==> cache@.generation[i] == (
            cache.generation.entries()[i].0,
            cache.generation.entries()[i].1@,
        ),
{
}

/// Each service of a group has a line of its own, with its name and its result.
pub proof fn law_each_service_has_its_line(
    services: Seq<(Seq<char>, HealthCheckResultView)>,
    i: int,
)
    requires
        0 <= i < services.len(),
    ensures
        service_lines(services).len() == services.len(),
        service_lines(services)[i] == "\t\t"@ + services[i].0 + ": "@ + result_text(services[i].1),
{
}

/// A group that alone has services is shown under its own title, with the lines of its
/// services and nothing else.
pub proof fn law_each_group_is_shown_under_its_title(cache: HealthCheckCacheView)
    ensures
        cache.detectors.len() > 0 && cache.chunkers.len() == 0 && cache.generation.len() == 0
            ==> cache_text(cache) == "configured client services: {\n"@ + ("\tdetectors: {\n"@
            + joined(service_lines(cache.detectors), ",\n"@) + "\t}"@) + "\n}"@,
        cache.detectors.len() == 0 && cache.chunkers.len() > 0 && cache.generation.len() == 0
            ==> cache_text(cache) == "configured client services: {\n"@ + ("\tchunkers: {\n"@
            + joined(service_lines(cache.chunkers), ",\n"@) + "\t}"@) + "\n}"@,
        cache.detectors.len() == 0 && cache.chunkers.len() == 0 && cache.generation.len() > 0
            ==> cache_text(cache) == "configured client services: {\n"@ + ("\tgeneration: {\n"@
            + joined(service_lines(cache.generation), ",\n"@) + "\t}"@) + "\n}"@,
        cache.detectors.len() == 0 && cache.chunkers.len() == 0 && cache.generation.len() == 0
            ==> cache_text(cache) == "configured client services: {\n\n}"@,
{
    lemma_titles();
    let comma = ",\n"@;
    let empty = Seq::<Seq<char>>::empty();
    if cache.chunkers.len() == 0 && cache.generation.len() == 0 {
        if cache.detectors.len() > 0 {
            let part = section("detectors"@, cache.detectors)[0];
            assert(sections(cache) =~= seq![part]);
            law_joining_is_compositional(empty, empty, part, comma);
            assert(part =~= "\tdetectors: {\n"@ + joined(service_lines(cache.detectors), comma)
                + "\t}"@);
        } else {
            assert(sections(cache) =~= empty);
            law_joining_is_compositional(empty, empty, Seq::empty(), comma);
            reveal_strlit("configured client services: {\n");
            reveal_strlit("\n}");
            reveal_strlit("configured client services: {\n\n}");
            assert(cache_text(cache) =~= "configured client services: {\n\n}"@);
        }
    } else if cache.detectors.len() == 0 && cache.generation.len() == 0 {
        let part = section("chunkers"@, cache.chunkers)[0];
        assert(sections(cache) =~= seq![part]);
        law_joining_is_compositional(empty, empty, part, comma);
        assert(part =~= "\tchunkers: {\n"@ + joined(service_lines(cache.chunkers), comma)
            + "\t}"@);
    } else if cache.detectors.len() == 0 && cache.chunkers.len() == 0 {
        let part = section("generation"@, cache.generation)[0];
        assert(sections(cache) =~= seq![part]);
        law_joining_is_compositional(empty, empty, part, comma);
        assert(part =~= "\tgeneration: {\n"@ + joined(service_lines(cache.generation), comma)
            + "\t}"@);
    }
}

proof fn lemma_titles()
    ensures
        "\t"@ + "detectors"@ + ": {\n"@ == "\tdetectors: {\n"@,
        "\t"@ + "chunkers"@ + ": {\n"@ == "\tchunkers: {\n"@,
        "\t"@ + "generation"@ + ": {\n"@ == "\tgeneration: {\n"@,
{
    reveal_strlit("\t");
    reveal_strlit(": {\n");
    reveal_strlit("detectors");
    reveal_strlit("\tdetectors: {\n");
    reveal_strlit("chunkers");
    reveal_strlit("\tchunkers: {\n");
    reveal_strlit("generation");
    reveal_strlit("\tgeneration: {\n");
    assert("\t"@ + "detectors"@ + ": {\n"@ =~= "\tdetectors: {\n"@);
    assert("\t"@ + "chunkers"@ + ": {\n"@ =~= "\tchunkers: {\n"@);
    assert("\t"@ + "generation"@ + ": {\n"@ =~= "\tgeneration: {\n"@);
}

/// What a cache shows between the frame.
pub open spec fn shown_inside(cache: HealthCheckCacheView) -> Seq<char> {
    let text = cache_text(cache);
    text.subrange(
        "configured client services: {\n"@.len() as int,
        text.len() - "\n}"@.len() as int,
    )
}

/// A cache shows what its groups show alone, the detectors first, then the chunkers, then
/// generation, with a comma and a new line between those that have services.
pub proof fn law_groups_are_shown_one_after_the_other(
    cache: HealthCheckCacheView,
    detectors: HealthCheckCacheView,
    chunkers: HealthCheckCacheView,
    generation: HealthCheckCacheView,
)
    requires
        detectors.detectors == cache.detectors,
        detectors.chunkers.len() == 0,
        detectors.generation.len() == 0,
        chunkers.detectors.len() == 0,
        chunkers.chunkers == cache.chunkers,
        chunkers.generation.len() == 0,
        generation.detectors.len() == 0,
        generation.chunkers.len() == 0,
        generation.generation == cache.generation,
    ensures
        cache_text(cache) == "configured client services: {\n"@ + shown_inside(cache) + "\n}"@,
        cache.detectors.len() > 0 && cache.chunkers.len() > 0 && cache.generation.len() > 0
            ==> shown_inside(cache) == shown_inside(detectors) + ",\n"@ + shown_inside(chunkers)
            + ",\n"@ + shown_inside(generation),
        cache.detectors.len() > 0 && cache.chunkers.len() > 0 && cache.generation.len() == 0
            ==> shown_inside(cache) == shown_inside(detectors) + ",\n"@ + shown_inside(chunkers),
        cache.detectors.len() > 0 && cache.chunkers.len() == 0 && cache.generation.len() > 0
            ==> shown_inside(cache) == shown_inside(detectors) + ",\n"@ + shown_inside(generation),
        cache.detectors.len() == 0 && cache.chunkers.len() > 0 && cache.generation.len() > 0
            ==> shown_inside(cache) == shown_inside(chunkers) + ",\n"@ + shown_inside(generation),
{
    let comma = ",\n"@;
    lemma_inside(cache);
    lemma_inside(detectors);
    lemma_inside(chunkers);
    lemma_inside(generation);
    let d = section("detectors"@, cache.detectors);
    let c = section("chunkers"@, cache.chunkers);
    let g = section("generation"@, cache.generation);
    assert(sections(detectors) =~= d);
    assert(sections(chunkers) =~= c);
    assert(sections(generation) =~= g);
    assert(sections(cache) =~= d + (c + g));
    assert(c.len() == 0 ==> c + g =~= g);
    assert(g.len() == 0 ==> c + g =~= c);
    assert(d.len() == 0 ==> d + (c + g) =~= c + g);
    law_joining_is_compositional(d, c + g, Seq::empty(), comma);
    law_joining_is_compositional(c, g, Seq::empty(), comma);
    if d.len() > 0 && c.len() > 0 && g.len() > 0 {
        assert(joined(d, comma) + comma + (joined(c, comma) + comma + joined(g, comma)) =~= joined(
            d,
            comma,
        ) + comma + joined(c, comma) + comma + joined(g, comma));
    }
}

proof fn lemma_inside(cache: HealthCheckCacheView)
    ensures
        shown_inside(cache) == joined(sections(cache), ",\n"@),
        cache_text(cache) == "configured client services: {\n"@ + shown_inside(cache) + "\n}"@,
{
    assert(shown_inside(cache) =~= joined(sections(cache), ",\n"@));
}

} // verus!
