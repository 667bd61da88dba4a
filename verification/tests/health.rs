use axum::http::StatusCode;
use guardrails_core::client_code::ClientCode;
use guardrails_core::health::{
    HealthCheckCache, HealthCheckProbeParams, HealthCheckResponse, HealthCheckResult,
    HealthProbeResponse, HealthStatus, OptionalHealthCheckResponseBody,
    SerializedHealthCheckResult,
};
use tonic::{Code, Response, Status};

fn result(health_status: HealthStatus, response_code: ClientCode, reason: Option<&str>) -> HealthCheckResult {
    HealthCheckResult {
        health_status,
        response_code,
        reason: reason.map(|text| text.to_string()),
    }
}

fn reason(status: i32) -> Option<String> {
    HealthCheckResult::reason_from_health_check_response(&HealthCheckResponse { status })
}

#[test]
fn reasons_of_serving_statuses() {
    assert_eq!(reason(0).unwrap(), "from gRPC health check serving status: UNKNOWN");
    assert_eq!(reason(1), None);
    assert_eq!(reason(2).unwrap(), "from gRPC health check serving status: NOT_SERVING");
    assert_eq!(reason(3).unwrap(), "from gRPC health check serving status: SERVICE_UNKNOWN");
    for status in [4, 10, 99, 100, 12345, -1, -10, i32::MAX, i32::MIN] {
        assert_eq!(
            reason(status).unwrap(),
            format!("Unexpected gRPC health check serving status: {}", status)
        );
    }
}

#[test]
fn reason_is_missing_exactly_for_a_healthy_answer() {
    for status in -3..8 {
        let answered = HealthCheckResult::from_answer(HealthCheckResponse { status });
        assert_eq!(answered.reason.is_none(), answered.health_status == HealthStatus::Healthy);
        assert_eq!(answered.response_code, ClientCode::Grpc(Code::Ok));
    }
}

#[test]
fn statuses_of_serving_statuses() {
    let status = |status| HealthStatus::from(HealthCheckResponse { status });
    assert_eq!(status(0), HealthStatus::Unknown);
    assert_eq!(status(1), HealthStatus::Healthy);
    assert_eq!(status(2), HealthStatus::Unhealthy);
    assert_eq!(status(3), HealthStatus::Unknown);
    assert_eq!(status(-7), HealthStatus::Unknown);
}

#[test]
fn statuses_of_http_codes() {
    for number in 100..1000 {
        let expected = match number {
            200..=299 => HealthStatus::Healthy,
            500..=599 => HealthStatus::Unhealthy,
            _ => HealthStatus::Unknown,
        };
        assert_eq!(HealthStatus::from(StatusCode::from_u16(number).unwrap()), expected);
        assert_eq!(HealthStatus::from_http_number(number), expected);
    }
    assert_eq!(HealthStatus::from_http_number(0), HealthStatus::Unknown);
    assert_eq!(HealthStatus::from_http_number(u16::MAX), HealthStatus::Unknown);
}

#[test]
fn names_of_statuses_are_read_back() {
    for (status, name) in [
        (HealthStatus::Healthy, "HEALTHY"),
        (HealthStatus::Unhealthy, "UNHEALTHY"),
        (HealthStatus::Unknown, "UNKNOWN"),
    ] {
        assert_eq!(status.to_string(), name);
        assert_eq!(status.as_str(), name);
        assert_eq!(HealthStatus::from_name(&status.to_string()), Some(status));
    }
    for name in ["", "healthy", "HEALTHY ", "UNHEALTH"] {
        assert_eq!(HealthStatus::from_name(&name.to_string()), None);
    }
}

#[test]
fn texts_of_codes() {
    assert_eq!(ClientCode::Http(StatusCode::OK).to_string(), "HTTP 200 OK");
    assert_eq!(ClientCode::Http(StatusCode::NOT_FOUND).to_string(), "HTTP 404 Not Found");
    assert_eq!(
        ClientCode::Http(StatusCode::from_u16(599).unwrap()).to_string(),
        "HTTP 599 <unknown status code>"
    );
    for number in 100..1000 {
        let code = StatusCode::from_u16(number).unwrap();
        assert_eq!(ClientCode::Http(code).to_string(), format!("HTTP {}", code));
    }
    assert_eq!(ClientCode::Grpc(Code::Ok).to_string(), "gRPC 0 OK");
    assert_eq!(ClientCode::Grpc(Code::Unavailable).to_string(), "gRPC 14 UNAVAILABLE");
    for number in 0..17 {
        let text = ClientCode::Grpc(Code::from_i32(number)).to_string();
        assert!(text.starts_with(&format!("gRPC {} ", number)));
    }
}

#[test]
fn answered_grpc_health_check() {
    let answered =
        HealthCheckResult::from(Ok::<_, Status>(Response::new(HealthCheckResponse { status: 2 })));
    assert_eq!(answered.health_status, HealthStatus::Unhealthy);
    assert_eq!(answered.response_code, ClientCode::Grpc(Code::Ok));
    assert_eq!(
        answered.reason.unwrap(),
        "from gRPC health check serving status: NOT_SERVING"
    );
}

#[test]
fn failed_grpc_health_check() {
    let status = Status::new(Code::Unavailable, "down");
    let failed = HealthCheckResult::from(Err::<Response<HealthCheckResponse>, _>(status));
    assert_eq!(failed.health_status, HealthStatus::Unknown);
    assert_eq!(failed.response_code, ClientCode::Grpc(Code::Unavailable));
    assert_eq!(
        failed.reason.unwrap(),
        "gRPC health check failed: status: Unavailable, message: \"down\", details: [], \
         metadata: MetadataMap { headers: {} }"
    );

    let given = HealthCheckResult::from_failure(Code::Internal, "broken");
    assert_eq!(given.health_status, HealthStatus::Unknown);
    assert_eq!(given.reason.unwrap(), "gRPC health check failed: broken");
}

#[test]
fn texts_of_results() {
    let http = ClientCode::Http(StatusCode::SERVICE_UNAVAILABLE);
    assert_eq!(
        result(HealthStatus::Unhealthy, http, None).to_string(),
        "UNHEALTHY (HTTP 503 Service Unavailable)"
    );
    assert_eq!(
        result(HealthStatus::Unhealthy, http, Some("overloaded")).to_string(),
        "UNHEALTHY (HTTP 503 Service Unavailable)\n\t\t\toverloaded"
    );
}

#[test]
fn healthy_results_are_written_as_their_status() {
    let written = result(HealthStatus::Healthy, ClientCode::Grpc(Code::Ok), Some("fine")).serialize();
    assert!(matches!(written, SerializedHealthCheckResult::Status(HealthStatus::Healthy)));
}

#[test]
fn other_results_are_written_as_records() {
    let http = ClientCode::Http(StatusCode::BAD_REQUEST);
    match result(HealthStatus::Unknown, http, Some("why")).serialize() {
        SerializedHealthCheckResult::Record { health_status, response_code, reason } => {
            assert_eq!(health_status, HealthStatus::Unknown);
            assert_eq!(response_code, Some("HTTP 400 Bad Request".to_string()));
            assert_eq!(reason, Some("why".to_string()));
        }
        SerializedHealthCheckResult::Status(_) => panic!("a record was expected"),
    }
    match result(HealthStatus::Unhealthy, http, None).serialize() {
        SerializedHealthCheckResult::Record { health_status, reason, .. } => {
            assert_eq!(health_status, HealthStatus::Unhealthy);
            assert_eq!(reason, None);
        }
        SerializedHealthCheckResult::Status(_) => panic!("a record was expected"),
    }
}

#[test]
fn codes_of_success_are_not_written() {
    let not_serving = "from gRPC health check serving status: NOT_SERVING";
    for code in [ClientCode::Grpc(Code::Ok), ClientCode::Http(StatusCode::OK)] {
        match result(HealthStatus::Unhealthy, code, Some(not_serving)).serialize() {
            SerializedHealthCheckResult::Record { health_status, response_code, reason } => {
                assert_eq!(health_status, HealthStatus::Unhealthy);
                assert_eq!(response_code, None);
                assert_eq!(reason, Some(not_serving.to_string()));
            }
            SerializedHealthCheckResult::Status(_) => panic!("a record was expected"),
        }
    }
    match HealthCheckResult::from_failure(Code::Unavailable, "down").serialize() {
        SerializedHealthCheckResult::Record { response_code, .. } => {
            assert_eq!(response_code, Some("gRPC 14 UNAVAILABLE".to_string()));
        }
        SerializedHealthCheckResult::Status(_) => panic!("a record was expected"),
    }
}

#[test]
fn successful_codes() {
    for number in 100..1000 {
        let code = StatusCode::from_u16(number).unwrap();
        assert_eq!(ClientCode::Http(code).is_success(), number == 200);
    }
    for number in 0..17 {
        assert_eq!(ClientCode::Grpc(Code::from_i32(number)).is_success(), number == 0);
    }
}

#[test]
fn cache_is_initialized_when_each_group_has_a_result() {
    let ok = || result(HealthStatus::Healthy, ClientCode::Http(StatusCode::OK), None);
    let mut cache = HealthCheckCache::default();
    assert!(!cache.is_initialized());
    cache.detectors.insert("hap".to_string(), ok());
    assert!(!cache.is_initialized());
    cache.chunkers.insert("sentence".to_string(), ok());
    assert!(!cache.is_initialized());
    cache.generation.insert("llm".to_string(), ok());
    assert!(cache.is_initialized());
}

#[test]
fn texts_of_caches() {
    let ok = ClientCode::Http(StatusCode::OK);
    let mut cache = HealthCheckCache::default();
    assert_eq!(cache.to_string(), "configured client services: {\n\n}");

    cache.generation.insert("llm".to_string(), result(HealthStatus::Healthy, ok, None));
    assert_eq!(
        cache.to_string(),
        "configured client services: {\n\tgeneration: {\n\t\tllm: HEALTHY (HTTP 200 OK)\t}\n}"
    );

    cache.detectors.insert("hap".to_string(), result(HealthStatus::Healthy, ok, None));
    cache.detectors.insert(
        "pii".to_string(),
        result(HealthStatus::Unknown, ClientCode::Grpc(Code::Internal), Some("why")),
    );
    assert_eq!(
        cache.to_string(),
        "configured client services: {\n\
         \tdetectors: {\n\
         \t\thap: HEALTHY (HTTP 200 OK),\n\
         \t\tpii: UNKNOWN (gRPC 13 INTERNAL)\n\
         \t\t\twhy\t},\n\
         \tgeneration: {\n\
         \t\tllm: HEALTHY (HTTP 200 OK)\t}\n}"
    );
}

#[test]
fn probe_response_shows_the_cache() {
    let mut cache = HealthCheckCache::default();
    cache.chunkers.insert(
        "sentence".to_string(),
        result(HealthStatus::Unhealthy, ClientCode::Http(StatusCode::BAD_GATEWAY), Some("gone")),
    );
    let response = HealthProbeResponse::from_cache(&cache);
    assert_eq!(response.to_string(), cache.to_string());
    assert_eq!(response.services.chunkers.len(), 1);
    let found = response.services.chunkers.get(&"sentence".to_string()).unwrap();
    assert_eq!(found.reason, Some("gone".to_string()));
    // The answer is a copy: the cache may change
    cache.chunkers.insert(
        "sentence".to_string(),
        result(HealthStatus::Healthy, ClientCode::Http(StatusCode::OK), None),
    );
    assert_eq!(
        response.services.chunkers.get(&"sentence".to_string()).unwrap().health_status,
        HealthStatus::Unhealthy
    );
}

#[test]
fn plain_records_hold_what_they_are_given() {
    let body = OptionalHealthCheckResponseBody {
        health_status: HealthStatus::Unknown,
        reason: Some("starting".to_string()),
    };
    assert_eq!(body.health_status, HealthStatus::Unknown);
    assert_eq!(body.reason.as_deref(), Some("starting"));
    assert!(HealthCheckProbeParams { probe: true }.probe);
}
