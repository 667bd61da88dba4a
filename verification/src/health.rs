//! Health of client services: how the answers to health checks are read, kept and
//! shown.

use axum::http::StatusCode;
use tonic::{Code, Response, Status};
use vstd::prelude::*;

use crate::client_code::{client_code_text, is_success, ClientCode};
use crate::health_laws::law_names_tell_statuses_apart;
use crate::outside::{
    describe_status, grpc_serving_status, grpc_status_code, grpc_status_text, http_status_number,
    response_message,
};
use crate::string_map::StringMap;
use crate::text::{append_signed_decimal, contents, join, joined, signed_decimal};

verus! {

/// Health status determined for or returned by a client service.
#[derive(Debug, Clone, Copy, PartialEq, Eq, Structural)]
pub enum HealthStatus {
    /// The service is healthy and should be considered ready to serve requests.
    Healthy,
    /// The service is unhealthy and should be considered not ready to serve requests.
    Unhealthy,
    /// The health status of the service (and possibly the service itself) is unknown.
    /// The health check response said so, or the health request failed in a way that
    /// could come from a misconfiguration, so that the service could still be healthy.
    Unknown,
}

/// The message of a gRPC health check response.
#[derive(Debug, Clone, Copy, PartialEq, Eq, Structural)]
pub struct HealthCheckResponse {
    /// The serving status: 0 is UNKNOWN, 1 is SERVING, 2 is NOT_SERVING and 3 is
    /// SERVICE_UNKNOWN.
    pub status: i32,
}

/// An optional body of an HTTP health check response, with which a service can say
/// more than the status code does. Without it a response is successful if its status
/// code is `HTTP 200 OK`.
#[derive(Debug)]
pub struct OptionalHealthCheckResponseBody {
    /// `HEALTHY`, `UNHEALTHY`, or `UNKNOWN`. Although `HEALTHY` is already implied
    /// without a body.
    pub health_status: HealthStatus,
    /// Why the status is `UNHEALTHY` or `UNKNOWN`, if the service says so.
    pub reason: Option<String>,
}

/// Result of a health check request.
#[derive(Debug)]
pub struct HealthCheckResult {
    /// Overall health status of the client service.
    pub health_status: HealthStatus,
    /// Response code of the latest health check request. It is omitted on serialization
    /// if the health check was successful (when the response is `HTTP 200 OK` or
    /// `gRPC 0 OK`).
    pub response_code: ClientCode,
    /// Why the status is `UNHEALTHY` or `UNKNOWN`, if that is known.
    pub reason: Option<String>,
}

/// The latest health check results of each client service.
#[derive(Debug)]
pub struct HealthCheckCache {
    pub detectors: StringMap<HealthCheckResult>,
    pub chunkers: StringMap<HealthCheckResult>,
    pub generation: StringMap<HealthCheckResult>,
}

/// The answer of the readiness probe.
#[derive(Debug)]
pub struct HealthProbeResponse {
    pub services: HealthCheckCache,
}

/// Query parameters of the `/info` endpoint.
#[derive(Debug, Clone, Copy)]
pub struct HealthCheckProbeParams {
    /// Whether to probe the client services or just return the cached health status.
    pub probe: bool,
}

/// What is written of a health check result when it is serialized.
#[derive(Debug)]
pub enum SerializedHealthCheckResult {
    /// The status alone.
    Status(HealthStatus),
    /// A record of the status, the code unless it is that of a success, and the reason
    /// if there is one.
    Record { health_status: HealthStatus, response_code: Option<String>, reason: Option<String> },
}

/// A health check result as a mathematical value.
pub struct HealthCheckResultView {
    pub health_status: HealthStatus,
    pub response_code: ClientCode,
    pub reason: Option<Seq<char>>,
}

/// The latest results of each group of services, in the order in which they are
/// walked.
#[verifier::ext_equal]
pub struct HealthCheckCacheView {
    pub detectors: Seq<(Seq<char>, HealthCheckResultView)>,
    pub chunkers: Seq<(Seq<char>, HealthCheckResultView)>,
    pub generation: Seq<(Seq<char>, HealthCheckResultView)>,
}

/// What is written of a health check result, as a mathematical value.
pub enum SerializedView {
    Status(HealthStatus),
    Record {
        health_status: HealthStatus,
        response_code: Option<Seq<char>>,
        reason: Option<Seq<char>>,
    },
}

/// What an optional string holds.
pub open spec fn optional_text(text: Option<String>) -> Option<Seq<char>> {
    match text {
        Some(content) => Some(content@),
        None => None,
    }
}

impl View for HealthCheckResult {
    type V = HealthCheckResultView;

    open spec fn view(&self) -> HealthCheckResultView {
        HealthCheckResultView {
            health_status: self.health_status,
            response_code: self.response_code,
            reason: optional_text(self.reason),
        }
    }
}

impl View for SerializedHealthCheckResult {
    type V = SerializedView;

    open spec fn view(&self) -> SerializedView {
        match *self {
            SerializedHealthCheckResult::Status(health_status) => SerializedView::Status(
                health_status,
            ),
            SerializedHealthCheckResult::Record { health_status, response_code, reason } => {
                SerializedView::Record {
                    health_status,
                    response_code: optional_text(response_code),
                    reason: optional_text(reason),
                }
            },
        }
    }
}

/// The results of a group of services, in the order in which they are walked.
pub open spec fn listed(services: StringMap<HealthCheckResult>) -> Seq<
    (Seq<char>, HealthCheckResultView),
> {
    services.entries().map_values(|entry: (Seq<char>, HealthCheckResult)| (entry.0, entry.1@))
}

impl View for HealthCheckCache {
    type V = HealthCheckCacheView;

    open spec fn view(&self) -> HealthCheckCacheView {
        HealthCheckCacheView {
            detectors: listed(self.detectors),
            chunkers: listed(self.chunkers),
            generation: listed(self.generation),
        }
    }
}

/// The name under which a status is shown, written and read.
pub open spec fn status_name(status: HealthStatus) -> Seq<char> {
    match status {
        HealthStatus::Healthy => "HEALTHY"@,
        HealthStatus::Unhealthy => "UNHEALTHY"@,
        HealthStatus::Unknown => "UNKNOWN"@,
    }
}

/// What the number of an HTTP status code says of the service.
pub open spec fn status_for_http(number: u16) -> HealthStatus {
    if 200 <= number <= 299 {
        HealthStatus::Healthy
    } else if 500 <= number <= 599 {
        HealthStatus::Unhealthy
    } else {
        HealthStatus::Unknown
    }
}

/// What a gRPC serving status says of the service.
pub open spec fn status_for_serving(status: i32) -> HealthStatus {
    if status == 1 {
        HealthStatus::Healthy
    } else if status == 2 {
        HealthStatus::Unhealthy
    } else {
        HealthStatus::Unknown
    }
}

/// Why a gRPC serving status is not SERVING.
pub open spec fn reason_for_serving(status: i32) -> Option<Seq<char>> {
    if status == 0 {
        Some("from gRPC health check serving status: UNKNOWN"@)
    } else if status == 1 {
        None
    } else if status == 2 {
        Some("from gRPC health check serving status: NOT_SERVING"@)
    } else if status == 3 {
        Some("from gRPC health check serving status: SERVICE_UNKNOWN"@)
    } else {
        Some("Unexpected gRPC health check serving status: "@ + signed_decimal(status as int))
    }
}

/// The result of a gRPC health check that was answered with a serving status.
pub open spec fn result_of_answer(status: i32) -> HealthCheckResultView {
    HealthCheckResultView {
        health_status: status_for_serving(status),
        response_code: ClientCode::Grpc(Code::Ok),
        reason: reason_for_serving(status),
    }
}

/// The result of a gRPC health check that failed with a code and a description.
pub open spec fn result_of_failure(code: Code, description: Seq<char>) -> HealthCheckResultView {
    HealthCheckResultView {
        health_status: HealthStatus::Unknown,
        response_code: ClientCode::Grpc(code),
        reason: Some("gRPC health check failed: "@ + description),
    }
}

/// The result of a gRPC health check.
pub open spec fn result_of_grpc(
    outcome: Result<Response<HealthCheckResponse>, Status>,
) -> HealthCheckResultView {
    match outcome {
        Ok(response) => result_of_answer(grpc_serving_status(response)),
        Err(status) => result_of_failure(grpc_status_code(status), grpc_status_text(status)),
    }
}

/// A health check result as text.
pub open spec fn result_text(result: HealthCheckResultView) -> Seq<char> {
    let head = status_name(result.health_status) + " ("@ + client_code_text(result.response_code)
        + ")"@;
    match result.reason {
        Some(reason) => head + "\n\t\t\t"@ + reason,
        None => head,
    }
}

/// What is written of a health check result: of a healthy service the status alone, of
/// any other no code if it is that of a success.
pub open spec fn serialized_form(result: HealthCheckResultView) -> SerializedView {
    if result.health_status == HealthStatus::Healthy {
        SerializedView::Status(result.health_status)
    } else {
        SerializedView::Record {
            health_status: result.health_status,
            response_code: if is_success(result.response_code) {
                None
            } else {
                Some(client_code_text(result.response_code))
            },
            reason: result.reason,
        }
    }
}

/// The line of a service.
pub open spec fn service_text(service: (Seq<char>, HealthCheckResultView)) -> Seq<char> {
    "\t\t"@ + service.0 + ": "@ + result_text(service.1)
}

/// The lines of a group of services.
pub open spec fn service_lines(services: Seq<(Seq<char>, HealthCheckResultView)>) -> Seq<
    Seq<char>,
> {
    services.map_values(|service: (Seq<char>, HealthCheckResultView)| service_text(service))
}

/// The section of a group of services: none for an empty group.
pub open spec fn section(
    title: Seq<char>,
    services: Seq<(Seq<char>, HealthCheckResultView)>,
) -> Seq<Seq<char>> {
    if services.len() == 0 {
        Seq::empty()
    } else {
        seq![
            "\t"@ + title + ": {\n"@ + joined(service_lines(services), ",\n"@) + "\t}"@,
        ]
    }
}

/// The sections of a cache.
pub open spec fn sections(cache: HealthCheckCacheView) -> Seq<Seq<char>> {
    section("detectors"@, cache.detectors) + section("chunkers"@, cache.chunkers) + section(
        "generation"@,
        cache.generation,
    )
}

/// A cache as text.
pub open spec fn cache_text(cache: HealthCheckCacheView) -> Seq<char> {
    "configured client services: {\n"@ + joined(sections(cache), ",\n"@) + "\n}"@
}

/// Each group of services has a result.
pub open spec fn all_groups_known(cache: HealthCheckCacheView) -> bool {
    cache.detectors.len() > 0 && cache.chunkers.len() > 0 && cache.generation.len() > 0
}

impl HealthStatus {
    /// The name of the status: `HEALTHY`, `UNHEALTHY` or `UNKNOWN`.
    pub fn as_str(&self) -> (name: &'static str)
        ensures
            name@ == status_name(*self),
            match *self {
                HealthStatus::Healthy => name@ == "HEALTHY"@,
                HealthStatus::Unhealthy => name@ == "UNHEALTHY"@,
                HealthStatus::Unknown => name@ == "UNKNOWN"@,
            },
    {
        match self {
            HealthStatus::Healthy => "HEALTHY",
            HealthStatus::Unhealthy => "UNHEALTHY",
            HealthStatus::Unknown => "UNKNOWN",
        }
    }

    /// The status as text.
    pub fn to_string(&self) -> (text: String)
        ensures
            text@ == status_name(*self),
    {
        self.as_str().to_owned()
    }

    /// The status with a name, which is read back as it was written.
    pub fn from_name(name: &String) -> (status: Option<HealthStatus>)
        ensures
            forall|named: HealthStatus|
                #![trigger status_name(named)]
                status_name(named) == name@ <==> status == Some(named),
            status == Some(HealthStatus::Healthy) <==> name@ == "HEALTHY"@,
            status == Some(HealthStatus::Unhealthy) <==> name@ == "UNHEALTHY"@,
            status == Some(HealthStatus::Unknown) <==> name@ == "UNKNOWN"@,
    {
        proof {
            assert forall|a: HealthStatus, b: HealthStatus|
                #![trigger status_name(a), status_name(b)]
                status_name(a) == status_name(b) implies a == b by {
                law_names_tell_statuses_apart(a, b);
            }
            assert(status_name(HealthStatus::Healthy) == "HEALTHY"@);
            assert(status_name(HealthStatus::Unhealthy) == "UNHEALTHY"@);
            assert(status_name(HealthStatus::Unknown) == "UNKNOWN"@);
        }
        if *name == "HEALTHY".to_owned() {
            Some(HealthStatus::Healthy)
        } else if *name == "UNHEALTHY".to_owned() {
            Some(HealthStatus::Unhealthy)
        } else if *name == "UNKNOWN".to_owned() {
            Some(HealthStatus::Unknown)
        } else {
            None
        }
    }

    /// What the number of an HTTP status code says of the service. Any success and
    /// any server error counts, not only 200 and 503.
    pub fn from_http_number(number: u16) -> (status: HealthStatus)
        ensures
            status == status_for_http(number),
            status == HealthStatus::Healthy <==> 200 <= number <= 299,
            status == HealthStatus::Unhealthy <==> 500 <= number <= 599,
    {
        match number {
            200 => Self::Healthy,
            201..=299 => Self::Healthy,
            503 => Self::Unhealthy,
            500..=502 | 504..=599 => Self::Unhealthy,
            _ => Self::Unknown,
        }
    }
}

impl From<StatusCode> for HealthStatus {
    fn from(code: StatusCode) -> (status: Self)
        ensures
            status == HealthStatus::Healthy <==> 200 <= http_status_number(code) <= 299,
            status == HealthStatus::Unhealthy <==> 500 <= http_status_number(code) <= 599,
    {
        Self::from_http_number(code.as_u16())
    }
}

impl vstd::std_specs::convert::FromSpecImpl<StatusCode> for HealthStatus {
    open spec fn obeys_from_spec() -> bool {
        true
    }

    open spec fn from_spec(code: StatusCode) -> Self {
        status_for_http(http_status_number(code))
    }
}

impl From<HealthCheckResponse> for HealthStatus {
    fn from(response: HealthCheckResponse) -> (status: Self)
        ensures
            status == HealthStatus::Healthy <==> response.status == 1,
            status == HealthStatus::Unhealthy <==> response.status == 2,
    {
        match response.status {
            1 => Self::Healthy,
            2 => Self::Unhealthy,
            _ => Self::Unknown,
        }
    }
}

impl vstd::std_specs::convert::FromSpecImpl<HealthCheckResponse> for HealthStatus {
    open spec fn obeys_from_spec() -> bool {
        true
    }

    open spec fn from_spec(response: HealthCheckResponse) -> Self {
        status_for_serving(response.status)
    }
}

fn copy_reason(reason: &Option<String>) -> (copy: Option<String>)
    ensures
        optional_text(copy) == optional_text(*reason),
{
    match reason {
        Some(text) => Some(text.clone()),
        None => None,
    }
}

impl Clone for HealthCheckResult {
    fn clone(&self) -> (copy: Self)
        ensures
            copy@ == self@,
            copy.health_status == self.health_status,
            copy.response_code == self.response_code,
            copy.reason is None <==> self.reason is None,
            copy.reason is Some ==> copy.reason->0@ == self.reason->0@,
    {
        HealthCheckResult {
            health_status: self.health_status,
            response_code: self.response_code,
            reason: copy_reason(&self.reason),
        }
    }
}

impl HealthCheckResult {
    /// Why a gRPC health check response does not say SERVING.
    pub fn reason_from_health_check_response(response: &HealthCheckResponse) -> (reason: Option<
        String,
    >)
        ensures
            optional_text(reason) == reason_for_serving(response.status),
            reason is None <==> response.status == 1,
    {
        match response.status {
            0 => Some("from gRPC health check serving status: UNKNOWN".to_owned()),
            1 => None,
            2 => Some("from gRPC health check serving status: NOT_SERVING".to_owned()),
            3 => Some("from gRPC health check serving status: SERVICE_UNKNOWN".to_owned()),
            _ => {
                let mut reason = "Unexpected gRPC health check serving status: ".to_owned();
                append_signed_decimal(&mut reason, response.status);
                Some(reason)
            },
        }
    }

    /// The result of a gRPC health check that was answered.
    pub fn from_answer(response: HealthCheckResponse) -> (result: Self)
        ensures
            result@ == result_of_answer(response.status),
            result.health_status == HealthStatus::Healthy <==> response.status == 1,
            result.health_status == HealthStatus::Unhealthy <==> response.status == 2,
            result.response_code == ClientCode::Grpc(Code::Ok),
            result.reason is None <==> response.status == 1,
    {
        HealthCheckResult {
            health_status: HealthStatus::from(response),
            response_code: ClientCode::Grpc(Code::Ok),
            reason: Self::reason_from_health_check_response(&response),
        }
    }

    /// The result of a gRPC health check that failed.
    pub fn from_failure(code: Code, description: &str) -> (result: Self)
        ensures
            result@ == result_of_failure(code, description@),
            result.health_status == HealthStatus::Unknown,
            result.response_code == ClientCode::Grpc(code),
            result.reason is Some,
            result.reason->0@ == "gRPC health check failed: "@ + description@,
    {
        let mut reason = "gRPC health check failed: ".to_owned();
        reason.append(description);
        HealthCheckResult {
            health_status: HealthStatus::Unknown,
            response_code: ClientCode::Grpc(code),
            reason: Some(reason),
        }
    }

    /// The result as text.
    pub fn to_string(&self) -> (text: String)
        ensures
            text@ == result_text(self@),
            self.reason is None ==> text@ == status_name(self.health_status) + " ("@
                + client_code_text(self.response_code) + ")"@,
            self.reason is Some ==> text@ == status_name(self.health_status) + " ("@
                + client_code_text(self.response_code) + ")"@ + "\n\t\t\t"@ + self.reason->0@,
    {
        let mut text = self.health_status.to_string();
        text.append(" (");
        text.append(self.response_code.to_string().as_str());
        text.append(")");
        match &self.reason {
            Some(reason) => {
                text.append("\n\t\t\t");
                text.append(reason.as_str());
            },
            None => {},
        }
        text
    }

    /// What is written of the result when it is serialized.
    pub fn serialize(&self) -> (written: SerializedHealthCheckResult)
        ensures
            written@ == serialized_form(self@),
            match written {
                SerializedHealthCheckResult::Status(health_status) => {
                    &&& self.health_status == HealthStatus::Healthy
                    &&& health_status == HealthStatus::Healthy
                },
                SerializedHealthCheckResult::Record { health_status, response_code, reason } => {
                    &&& self.health_status != HealthStatus::Healthy
                    &&& health_status == self.health_status
                    &&& response_code is None <==> is_success(self.response_code)
                    &&& response_code is Some ==> response_code->0@ == client_code_text(
                        self.response_code,
                    )
                    &&& reason is None <==> self.reason is None
                    &&& reason is Some ==> reason->0@ == self.reason->0@
                },
            },
    {
        match self.health_status {
            HealthStatus::Healthy => SerializedHealthCheckResult::Status(self.health_status),
            _ => SerializedHealthCheckResult::Record {
                health_status: self.health_status,
                response_code: if self.response_code.is_success() {
                    None
                } else {
                    Some(self.response_code.to_string())
                },
                reason: copy_reason(&self.reason),
            },
        }
    }
}

impl From<Result<Response<HealthCheckResponse>, Status>> for HealthCheckResult {
    fn from(outcome: Result<Response<HealthCheckResponse>, Status>) -> (result: Self)
        ensures
            result@ == result_of_grpc(outcome),
            match outcome {
                Ok(response) => {
                    &&& result.health_status == HealthStatus::Healthy <==> grpc_serving_status(
                        response,
                    ) == 1
                    &&& result.health_status == HealthStatus::Unhealthy <==> grpc_serving_status(
                        response,
                    ) == 2
                    &&& result.response_code == ClientCode::Grpc(Code::Ok)
                    &&& result.reason is None <==> grpc_serving_status(response) == 1
                },
                Err(status) => {
                    &&& result.health_status == HealthStatus::Unknown
                    &&& result.response_code == ClientCode::Grpc(grpc_status_code(status))
                    &&& result.reason is Some
                    &&& result.reason->0@ == "gRPC health check failed: "@ + grpc_status_text(
                        status,
                    )
                },
            },
    {
        match outcome {
            Ok(response) => Self::from_answer(response_message(response)),
            Err(status) => Self::from_failure(status.code(), describe_status(&status).as_str()),
        }
    }
}

/// The reason is a string, which no spec expression can build: what `from` returns
/// is stated over its view, in its `ensures`.
impl vstd::std_specs::convert::FromSpecImpl<Result<Response<HealthCheckResponse>, Status>>
    for HealthCheckResult {
    open spec fn obeys_from_spec() -> bool {
        false
    }

    open spec fn from_spec(outcome: Result<Response<HealthCheckResponse>, Status>) -> Self {
        arbitrary()
    }
}

/// Adds the section of a group of services, if the group is not empty.
fn append_section(parts: &mut Vec<String>, title: &str, services: &StringMap<HealthCheckResult>)
    ensures
        contents(final(parts)@) == contents(old(parts)@) + section(title@, listed(*services)),
{
    let ghost all = listed(*services);
    let mut lines: Vec<String> = Vec::new();
    let count: usize = services.len();
    for at in 0..count
        invariant
            all == listed(*services),
            count == services.entries().len(),
            contents(lines@) == service_lines(all.take(at as int)),
    {
        let (name, result) = services.entry(at);
        let mut line = "\t\t".to_owned();
        line.append(name.as_str());
        line.append(": ");
        line.append(result.to_string().as_str());
        assert(line@ == service_text(all[at as int]));
        assert(service_lines(all.take(at as int + 1)) =~= service_lines(all.take(at as int)).push(
            line@,
        ));
        let ghost before = lines@;
        let ghost line_text = line@;
        lines.push(line);
        assert(contents(lines@) =~= contents(before).push(line_text));
    }
    assert(all.take(count as int) =~= all);
    if count > 0 {
        let mut part = "\t".to_owned();
        part.append(title);
        part.append(": {\n");
        part.append(join(&lines, ",\n").as_str());
        part.append("\t}");
        let ghost before = parts@;
        let ghost part_text = part@;
        parts.push(part);
        assert(contents(parts@) =~= contents(before) + seq![part_text]);
    } else {
        assert(contents(parts@) =~= contents(parts@) + Seq::<Seq<char>>::empty());
    }
}

impl Clone for HealthCheckCache {
    fn clone(&self) -> (copy: Self)
        ensures
            copy@ == self@,
    {
        let copy = HealthCheckCache {
            detectors: self.detectors.clone(),
            chunkers: self.chunkers.clone(),
            generation: self.generation.clone(),
        };
        assert(listed(copy.detectors) =~= listed(self.detectors));
        assert(listed(copy.chunkers) =~= listed(self.chunkers));
        assert(listed(copy.generation) =~= listed(self.generation));
        copy
    }
}

impl Default for HealthCheckCache {
    fn default() -> (cache: Self)
        ensures
            cache@.detectors.len() == 0,
            cache@.chunkers.len() == 0,
            cache@.generation.len() == 0,
    {
        HealthCheckCache {
            detectors: StringMap::new(),
            chunkers: StringMap::new(),
            generation: StringMap::new(),
        }
    }
}

impl HealthCheckCache {
    /// Whether each group of services has a result.
    pub fn is_initialized(&self) -> (initialized: bool)
        ensures
            initialized == all_groups_known(self@),
            initialized == (self.detectors.entries().len() > 0 && self.chunkers.entries().len() > 0
                && self.generation.entries().len() > 0),
    {
        !self.detectors.is_empty() && !self.chunkers.is_empty() && !self.generation.is_empty()
    }

    /// The cache as text, with a section for each group that has a service.
    pub fn to_string(&self) -> (text: String)
        ensures
            text@ == cache_text(self@),
    {
        let mut parts: Vec<String> = Vec::new();
        assert(contents(parts@) =~= Seq::empty());
        append_section(&mut parts, "detectors", &self.detectors);
        append_section(&mut parts, "chunkers", &self.chunkers);
        append_section(&mut parts, "generation", &self.generation);
        assert(contents(parts@) =~= sections(self@));
        let mut text = "configured client services: {\n".to_owned();
        text.append(join(&parts, ",\n").as_str());
        text.append("\n}");
        text
    }
}

impl HealthProbeResponse {
    /// The answer of the readiness probe for a cache.
    pub fn from_cache(cache: &HealthCheckCache) -> (response: Self)
        ensures
            response.services@ == cache@,
    {
        HealthProbeResponse { services: cache.clone() }
    }

    /// The answer as text.
    pub fn to_string(&self) -> (text: String)
        ensures
            text@ == cache_text(self.services@),
    {
        self.services.to_string()
    }
}

} // verus!
