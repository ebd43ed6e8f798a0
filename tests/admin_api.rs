use rust_tide_template::config::{load_config_from_cli, Cli, Env, LogLevel};
use rust_tide_template::level::{Level, LevelFilter};
use rust_tide_template::log_api::{
    handle_delete_log_level, handle_generate_test_logs, handle_get_log_level, handle_list_log_levels,
    handle_set_log_level, GenerateTestLogsRequest, SetLogLevelRequest,
};
use rust_tide_template::log_filter::{get_target_log_level, setup_logger};
use rust_tide_template::server::{middleware_chain, CorsMiddleware, Stage};
use rust_tide_template::test_logs::{generate_test_logs, generate_test_logs_for_current_module};

#[test]
fn set_then_get_then_delete() {
    let mut f = setup_logger(Level::Info);
    let (status, resp) = handle_set_log_level(
        &mut f,
        SetLogLevelRequest { target: "db".to_string(), level: "DEBUG".to_string() },
    );
    assert_eq!(status, 200);
    assert!(resp.success);
    assert_eq!(resp.message, "Log level for 'db' set to \"DEBUG\"");
    assert_eq!(resp.level.as_deref(), Some("DEBUG"));
    assert_eq!(get_target_log_level(&f, "db"), Some(LevelFilter::Debug));

    let (status, resp) = handle_get_log_level(&f, "db");
    assert_eq!(status, 200);
    assert_eq!(resp.message, "Log level for 'db'");
    assert_eq!(resp.level.as_deref(), Some("debug"));

    let (status, resp) = handle_delete_log_level(&mut f, "db");
    assert_eq!(status, 200);
    assert_eq!(resp.message, "Log level for 'db' removed");

    let (status, resp) = handle_delete_log_level(&mut f, "db");
    assert_eq!(status, 404);
    assert!(!resp.success);
    assert_eq!(resp.message, "No custom log level found for target 'db'");

    let (status, resp) = handle_get_log_level(&f, "db");
    assert_eq!(status, 404);
    assert_eq!(resp.message, "No custom log level set for target 'db'");
    assert!(resp.level.is_none());
}

#[test]
fn set_with_bad_level_is_refused() {
    let mut f = setup_logger(Level::Info);
    let (status, resp) = handle_set_log_level(
        &mut f,
        SetLogLevelRequest { target: "db".to_string(), level: "Loud".to_string() },
    );
    assert_eq!(status, 400);
    assert!(!resp.success);
    assert_eq!(resp.message, "Invalid log level: loud");
    assert_eq!(get_target_log_level(&f, "db"), None);
}

#[test]
fn list_reports_every_override() {
    let mut f = setup_logger(Level::Info);
    handle_set_log_level(&mut f, SetLogLevelRequest { target: "a".to_string(), level: "warn".to_string() });
    handle_set_log_level(&mut f, SetLogLevelRequest { target: "b".to_string(), level: "trace".to_string() });
    let (status, resp) = handle_list_log_levels(&f);
    assert_eq!(status, 200);
    assert!(resp.success);
    let mut got: Vec<(String, String)> = resp.targets.into_iter().map(|t| (t.target, t.level)).collect();
    got.sort();
    assert_eq!(got, vec![("a".to_string(), "warn".to_string()), ("b".to_string(), "trace".to_string())]);
}

#[test]
fn sample_records_cover_every_level() {
    let recs = generate_test_logs("db");
    assert_eq!(recs.len(), 5);
    assert_eq!(recs[0].level, Level::Trace);
    assert_eq!(recs[0].message, "This is a TRACE level message from db");
    assert_eq!(recs[2].message, "This is an INFO level message from db");
    assert_eq!(recs[4].level, Level::Error);
    assert!(recs.iter().all(|r| r.target == "db"));
    let own = generate_test_logs_for_current_module();
    assert_eq!(own[3].message, "This is a WARN level message from current module");
    assert_eq!(own[3].target, "rust_tide_template::test_logs");
}

#[test]
fn generate_test_logs_answer() {
    let (status, resp, recs) = handle_generate_test_logs(&GenerateTestLogsRequest { target: "x".to_string() });
    assert_eq!(status, 200);
    assert_eq!(resp.target, "x");
    assert_eq!(resp.generated_levels, vec!["trace", "debug", "info", "warn", "error"]);
    assert_eq!(recs.len(), 10);
    assert_eq!(recs[9].message, "This is an ERROR level message from current module");
}

#[test]
fn config_levels_and_cli() {
    assert_eq!(LogLevel::parse("TRACE").unwrap().0, Level::Trace);
    assert_eq!(LogLevel::parse("info").unwrap().0, Level::Info);
    assert_eq!(LogLevel::parse("Warn").unwrap_err(), "cannot convert warn to log level");
    assert_eq!(LogLevel::default().0, Level::Debug);
    assert_eq!(Env::Prd.name(), "prd");
    let mut cli = Cli {
        env: Env::Dev,
        port: 8888,
        verbose: 0,
        db_url: "sqlite://x.db".to_string(),
        config: "config.toml".to_string(),
        debug: 0,
        command: None,
    };
    let cfg = load_config_from_cli(&cli);
    assert_eq!((cfg.port, cfg.log_level.0, cfg.db_url.as_str()), (8888, Level::Info, "sqlite://x.db"));
    cli.verbose = 1;
    assert_eq!(load_config_from_cli(&cli).log_level.0, Level::Debug);
    cli.verbose = 9;
    assert_eq!(load_config_from_cli(&cli).log_level.0, Level::Trace);
}

#[test]
fn chain_order_and_cors() {
    assert_eq!(
        middleware_chain(),
        vec![Stage::ErrorHandle, Stage::Cors, Stage::Auth, Stage::AccessLog, Stage::Handler]
    );
    let cors = CorsMiddleware;
    assert!(cors.is_preflight("OPTIONS"));
    assert!(!cors.is_preflight("GET"));
    let h = cors.headers();
    assert_eq!(h.len(), 5);
    assert_eq!(h[0], ("Access-Control-Allow-Origin".to_string(), "http://localhost:5173".to_string()));
}

#[test]
fn preflight_is_answered_by_the_cors_stage() {
    let cors = CorsMiddleware;
    assert_eq!(cors.preflight_response("OPTIONS"), Some((200, String::new())));
    assert_eq!(cors.preflight_response("GET"), None);
    assert_eq!(cors.preflight_response("options"), None);
}
