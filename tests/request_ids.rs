use rust_tide_template::logging::format_log_line;
use rust_tide_template::level::Level;
use rust_tide_template::request_id::{gen_n_random_str, id_from_draws, get_req_id, set_req_id, RequestContext};

#[test]
fn test_gen_random_str_length() {
    let result = gen_n_random_str(7);
    assert_eq!(result.len(), 7, "Generated string should have length 7");
}

#[test]
fn test_gen_random_str_characters() {
    let result = gen_n_random_str(7);
    let valid_chars = b"abcdefghijklmnopqrstuvwxyzABCDEFGHIJKLMNOPQRSTUVWXYZ0123456789";

    for byte in result.as_bytes() {
        assert!(
            valid_chars.contains(byte),
            "Invalid character '{}' in generated string",
            *byte as char
        );
    }
}

#[test]
fn test_gen_random_str_deterministic() {
    let result1 = gen_n_random_str(7);
    assert_eq!(result1.len(), 7);

    let result2 = gen_n_random_str(7);
    assert_eq!(result2.len(), 7);
}

#[test]
fn test_gen_random_str_format() {
    let result = gen_n_random_str(7);
    println!("Generated random string: {}", result);
    assert_eq!(result.len(), 7);
    assert!(!result.is_empty());
}

#[test]
fn random_str_of_zero_length_is_empty() {
    assert_eq!(gen_n_random_str(0), "");
}

#[test]
fn set_req_id_gives_fresh_alphanumeric_id() {
    let mut ctx = RequestContext::detached();
    assert_eq!(get_req_id(&ctx), "");
    set_req_id(&mut ctx);
    let id = get_req_id(&ctx);
    assert_eq!(id.len(), 7);
    assert!(id.chars().all(|c| c.is_ascii_alphanumeric()));
}

#[test]
fn concurrent_requests_keep_their_own_ids_in_log_lines() {
    let a = RequestContext { request_id: "abc1234".to_string() };
    let b = RequestContext { request_id: "XYZ9876".to_string() };
    let la = format_log_line("T", Level::Info, "app", &a, None, None, "hello");
    let lb = format_log_line("T", Level::Info, "app", &b, None, None, "hello");
    assert_eq!(la, "T|INFO|app|abc1234|hello");
    assert_eq!(lb, "T|INFO|app|XYZ9876|hello");
    assert!(!la.contains("XYZ9876"));
    assert!(!lb.contains("abc1234"));
}

#[test]
fn draws_map_onto_the_alphabet_in_order() {
    let all: Vec<u8> = (0u8..62).collect();
    assert_eq!(
        id_from_draws(&all),
        "0123456789abcdefghijklmnopqrstuvwxyzABCDEFGHIJKLMNOPQRSTUVWXYZ"
    );
    assert_eq!(id_from_draws(&vec![62, 255, 61, 123]), "07ZZ");
    assert_eq!(id_from_draws(&vec![]), "");
}
