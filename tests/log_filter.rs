use rust_tide_template::level::{format_log_level, parse_log_level, Level, LevelFilter};
use rust_tide_template::log_filter::{
    enabled, get_global_log_level, get_target_log_level, list_target_log_levels, parse_directive,
    remove_target_log_level, set_target_log_level, setup_logger, update_global_log_level,
};

#[test]
fn level_names_parse_ignoring_case() {
    assert_eq!(parse_log_level("off").unwrap(), LevelFilter::Off);
    assert_eq!(parse_log_level("ERROR").unwrap(), LevelFilter::Error);
    assert_eq!(parse_log_level("Warn").unwrap(), LevelFilter::Warn);
    assert_eq!(parse_log_level("info").unwrap(), LevelFilter::Info);
    assert_eq!(parse_log_level("dEbUg").unwrap(), LevelFilter::Debug);
    assert_eq!(parse_log_level("trace").unwrap(), LevelFilter::Trace);
    let e = parse_log_level("Verbose").unwrap_err();
    assert_eq!(e.bad, "verbose");
    assert!(parse_log_level("").is_err());
}

#[test]
fn level_names_format() {
    assert_eq!(format_log_level(LevelFilter::Off), "off");
    assert_eq!(format_log_level(LevelFilter::Error), "error");
    assert_eq!(format_log_level(LevelFilter::Warn), "warn");
    assert_eq!(format_log_level(LevelFilter::Info), "info");
    assert_eq!(format_log_level(LevelFilter::Debug), "debug");
    assert_eq!(format_log_level(LevelFilter::Trace), "trace");
}

#[test]
fn directive_parses_global_and_targets() {
    let f = parse_directive("warn,db=DEBUG,http=off").unwrap();
    assert_eq!(f.global, LevelFilter::Warn);
    assert_eq!(f.targets.len(), 2);
    assert_eq!(f.targets[0].0, "db");
    assert_eq!(f.targets[0].1, LevelFilter::Debug);
    assert_eq!(f.targets[1].0, "http");
    assert_eq!(f.targets[1].1, LevelFilter::Off);
    let f = parse_directive("db=trace").unwrap();
    assert_eq!(f.global, LevelFilter::Error);
}

#[test]
fn malformed_directives_are_refused() {
    for d in ["", "loud", "info,", ",info", "=debug", "db=loud"] {
        assert!(parse_directive(d).is_err(), "{d}");
    }
}

#[test]
fn malformed_reload_keeps_current() {
    let mut f = setup_logger(Level::Info);
    assert_eq!(get_global_log_level(&f), "info");
    update_global_log_level(&mut f, "debug,db=warn").unwrap();
    let before = get_global_log_level(&f);
    assert_eq!(before, "debug,db=warn");
    assert!(update_global_log_level(&mut f, "debug,db=nonsense").is_err());
    assert_eq!(get_global_log_level(&f), before);
    assert!(enabled(&f, "other", Level::Debug));
}

#[test]
fn valid_reload_is_seen_by_next_check() {
    let mut f = setup_logger(Level::Info);
    assert!(!enabled(&f, "app", Level::Debug));
    update_global_log_level(&mut f, "debug").unwrap();
    assert!(enabled(&f, "app", Level::Debug));
    assert!(!enabled(&f, "app", Level::Trace));
    update_global_log_level(&mut f, "error,app=trace,app=warn").unwrap();
    assert!(enabled(&f, "app", Level::Warn));
    assert!(!enabled(&f, "app", Level::Info));
    assert!(!enabled(&f, "other", Level::Warn));
    assert!(enabled(&f, "other", Level::Error));
}

#[test]
fn target_overrides_come_first_and_match_exactly() {
    let mut f = setup_logger(Level::Warn);
    update_global_log_level(&mut f, "warn,db=error").unwrap();
    set_target_log_level(&mut f, "db".to_string(), LevelFilter::Trace);
    assert!(enabled(&f, "db", Level::Trace));
    assert!(!enabled(&f, "db::pool", Level::Info));
    assert_eq!(get_target_log_level(&f, "db"), Some(LevelFilter::Trace));
    assert_eq!(get_target_log_level(&f, "web"), None);
    assert!(remove_target_log_level(&mut f, "db"));
    assert!(!remove_target_log_level(&mut f, "db"));
    assert!(!enabled(&f, "db", Level::Warn));
    assert!(enabled(&f, "db", Level::Error));
}

#[test]
fn off_filter_admits_nothing() {
    let mut f = setup_logger(Level::Trace);
    set_target_log_level(&mut f, "quiet".to_string(), LevelFilter::Off);
    assert!(!enabled(&f, "quiet", Level::Error));
    assert!(enabled(&f, "loud", Level::Trace));
}

#[test]
fn overrides_are_listed_once_each() {
    let mut f = setup_logger(Level::Info);
    set_target_log_level(&mut f, "a".to_string(), LevelFilter::Debug);
    set_target_log_level(&mut f, "b".to_string(), LevelFilter::Off);
    set_target_log_level(&mut f, "a".to_string(), LevelFilter::Warn);
    let mut list = list_target_log_levels(&f);
    list.sort_by(|x, y| x.0.cmp(&y.0));
    assert_eq!(list, vec![("a".to_string(), LevelFilter::Warn), ("b".to_string(), LevelFilter::Off)]);
}

#[test]
fn tide_middleware_records_are_never_emitted() {
    let mut f = setup_logger(Level::Trace);
    assert!(!enabled(&f, "tide::log::middleware", Level::Error));
    assert!(!enabled(&f, "tide::log::middleware::inner", Level::Error));
    set_target_log_level(&mut f, "tide::log::middleware".to_string(), LevelFilter::Trace);
    assert!(!enabled(&f, "tide::log::middleware", Level::Error));
    assert!(enabled(&f, "tide::log", Level::Trace));
}

#[test]
fn directive_targets_match_by_prefix_and_longest_wins() {
    let mut f = setup_logger(Level::Info);
    update_global_log_level(&mut f, "warn,db=debug,db::pool=error").unwrap();
    assert!(enabled(&f, "db", Level::Debug));
    assert!(enabled(&f, "db::query", Level::Debug));
    assert!(!enabled(&f, "db::pool", Level::Warn));
    assert!(!enabled(&f, "db::pool::conn", Level::Warn));
    assert!(!enabled(&f, "web", Level::Info));
    update_global_log_level(&mut f, "warn,db::pool=error,db=debug").unwrap();
    assert!(!enabled(&f, "db::pool", Level::Warn));
}

#[test]
fn current_text_reloads_to_the_same_filter() {
    let mut f = setup_logger(Level::Info);
    update_global_log_level(&mut f, "TRACE,db=Warn,web::api=off").unwrap();
    let text = get_global_log_level(&f);
    assert_eq!(text, "trace,db=warn,web::api=off");
    let mut g = setup_logger(Level::Error);
    update_global_log_level(&mut g, &text).unwrap();
    assert_eq!(get_global_log_level(&g), text);
    assert!(!enabled(&g, "web::api", Level::Error));
    assert!(enabled(&g, "other", Level::Trace));
}
