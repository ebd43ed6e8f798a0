use rust_tide_template::error_handle::ErrorHandleMiddleware;
use rust_tide_template::level::Level;
use rust_tide_template::logging::{access_log_line, format_log_line, log_line, AccessLogMiddleware, AccessRecord};
use rust_tide_template::request_id::RequestContext;

fn record(method: &str, agent: Option<&str>, auth: Option<&str>) -> AccessRecord {
    AccessRecord {
        peer_addr: Some("127.0.0.1:5000".to_string()),
        user_agent: agent.map(|s| s.to_string()),
        authorization: auth.map(|s| s.to_string()),
        method: method.to_string(),
        status: 200,
        elapsed_nanos: 1_500_000,
        request_len: 12,
        response_len: 345,
        path: "/user/alice".to_string(),
    }
}

#[test]
fn decimal_rendering_of_status_and_size() {
    let mut rec = record("GET", None, None);
    rec.status = 0;
    rec.response_len = u64::MAX;
    assert_eq!(access_log_line(&rec), "127.0.0.1:5000|-|-|GET|0|1.5ms|18446744073709551615B|/user/alice");
    rec.status = 10;
    rec.response_len = 7;
    assert_eq!(access_log_line(&rec), "127.0.0.1:5000|-|-|GET|10|1.5ms|7B|/user/alice");
}

#[test]
fn info_line_layout() {
    let ctx = RequestContext { request_id: "a1B2c3D".to_string() };
    let line = format_log_line("2024-01-01T00:00:00.000Z", Level::Info, "app::db", &ctx, Some("src/db.rs"), Some(9), "ready");
    assert_eq!(line, "2024-01-01T00:00:00.000Z|INFO|app::db|a1B2c3D|ready");
}

#[test]
fn error_line_carries_location() {
    let ctx = RequestContext { request_id: "a1B2c3D".to_string() };
    let line = format_log_line("T", Level::Error, "app", &ctx, Some("src/db.rs"), Some(42), "boom");
    assert_eq!(line, "T|ERROR|app|a1B2c3D|src/db.rs@42|boom");
    let line = format_log_line("T", Level::Error, "app", &ctx, None, None, "boom");
    assert_eq!(line, "T|ERROR|app|a1B2c3D|unknown_file@0|boom");
}

#[test]
fn line_outside_request_shows_dash() {
    let ctx = RequestContext::detached();
    let line = format_log_line("T", Level::Warn, "app", &ctx, None, None, "m");
    assert_eq!(line, "T|WARN|app|-|m");
}

#[test]
fn timestamp_is_rfc3339_utc_with_millis() {
    let ctx = RequestContext::detached();
    let line = log_line(1_518_568_087_123, Level::Debug, "t", &ctx, None, None, "x");
    assert_eq!(line, "2018-02-14T00:28:07.123Z|DEBUG|t|-|x");
    let line = log_line(0, Level::Trace, "t", &ctx, None, None, "x");
    assert_eq!(line, "1970-01-01T00:00:00.000Z|TRACE|t|-|x");
}

#[test]
fn access_line_for_get() {
    let auth = format!("Basic {}", base64_simd::STANDARD.encode_to_string(b"alice:secret"));
    let line = access_log_line(&record("GET", Some("curl/8.0 (x86_64)"), Some(&auth)));
    assert_eq!(line, "127.0.0.1:5000|curl/8.0|alice|GET|200|1.5ms|345B|/user/alice");
}

#[test]
fn access_line_for_post_without_headers() {
    let mut rec = record("POST", None, None);
    rec.peer_addr = None;
    rec.status = 401;
    let line = access_log_line(&rec);
    assert_eq!(line, "-|-|-|POST|401|1.5ms|12B|/user/alice");
}

#[test]
fn access_line_agent_without_space_is_kept() {
    let line = access_log_line(&record("GET", Some("probe"), Some("Basic ???")));
    assert_eq!(line, "127.0.0.1:5000|probe|-|GET|200|1.5ms|345B|/user/alice");
}

#[test]
fn access_stage_starts_and_finishes() {
    let stage = AccessLogMiddleware;
    let ctx = stage.begin();
    assert_eq!(ctx.request_id.len(), 7);
    let rec = stage.finish(&record("GET", None, None));
    assert_eq!(rec.level, Level::Info);
    assert_eq!(rec.message, "127.0.0.1:5000|-|-|GET|200|1.5ms|345B|/user/alice");
}

#[test]
fn scenario_handler_error_is_surfaced() {
    let stage = ErrorHandleMiddleware;
    let out = stage.intercept(503, Some("\"boom\"".to_string()));
    assert_eq!(out.status, 503);
    assert!(out.body.as_ref().unwrap().contains("boom"));
    let log = out.log.unwrap();
    assert_eq!(log.level, Level::Error);
    assert!(log.message.contains("boom"));
}

#[test]
fn response_without_error_passes_unchanged() {
    let out = ErrorHandleMiddleware.intercept(200, None);
    assert_eq!(out.status, 200);
    assert!(out.body.is_none());
    assert!(out.log.is_none());
}

#[test]
fn latest_formattable_instant() {
    let ctx = RequestContext::detached();
    let line = log_line(
        rust_tide_template::logging::TIMESTAMP_LIMIT_MILLIS - 1,
        Level::Info,
        "t",
        &ctx,
        None,
        None,
        "x",
    );
    assert_eq!(line, "9999-12-31T23:59:59.999Z|INFO|t|-|x");
}
