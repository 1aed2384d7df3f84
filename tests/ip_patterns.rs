use token_splice::ip_pattern::{is_valid_ip, is_valid_ip_pattern};
use token_splice::records::TokenStatsSummary;

#[test]
fn test_valid_ip_patterns() {
    assert!(is_valid_ip_pattern("192.168.1.1"));
    assert!(is_valid_ip_pattern("10.0.0.0/8"));
    assert!(is_valid_ip_pattern("172.16.0.0/16"));
    assert!(is_valid_ip_pattern("192.168.1.0/24"));
    assert!(is_valid_ip_pattern("8.8.8.8/32"));
}

#[test]
fn test_invalid_ip_patterns() {
    assert!(!is_valid_ip_pattern("256.1.1.1"));
    assert!(!is_valid_ip_pattern("192.168.1"));
    assert!(!is_valid_ip_pattern("192.168.1.1/33"));
    assert!(!is_valid_ip_pattern("192.168.1.1/"));
    assert!(!is_valid_ip_pattern("invalid"));
}

#[test]
fn test_record_and_query() {
    assert!(true);
}

#[test]
fn ip_pieces_follow_byte_parsing() {
    assert!(is_valid_ip("0.0.0.0"));
    assert!(is_valid_ip("255.255.255.255"));
    assert!(is_valid_ip("+1.02.003.4"));
    assert!(!is_valid_ip("1..2.3"));
    assert!(!is_valid_ip("1.2.3.4.5"));
    assert!(!is_valid_ip("1.2.3.+"));
    assert!(!is_valid_ip("-1.2.3.4"));
    assert!(!is_valid_ip(""));
}

#[test]
fn cidr_needs_exactly_one_slash() {
    assert!(is_valid_ip_pattern("1.2.3.4/0"));
    assert!(!is_valid_ip_pattern("1.2.3.4/8/8"));
    assert!(!is_valid_ip_pattern("/8"));
    assert!(!is_valid_ip_pattern("1.2.3.4/x"));
}

#[test]
fn summary_record_holds_its_counts() {
    let s = TokenStatsSummary {
        total_input_tokens: 3,
        total_output_tokens: 4,
        total_tokens: 7,
        total_requests: 2,
        unique_accounts: 1,
    };
    assert_eq!(s.clone().total_tokens, 7);
}
