use k1f_bot::ping::{extract_host_from_ip, extract_host_from_url, is_ipv4, normalize_host, BotPingError};

#[test]
fn plain_host_is_kept_after_trimming() {
    assert_eq!(normalize_host("  google.com \n"), Ok("google.com".to_string()));
    assert_eq!(normalize_host(""), Ok(String::new()));
}

#[test]
fn url_is_reduced_to_its_host() {
    assert_eq!(normalize_host("https://google.com/search?q=1"), Ok("google.com".to_string()));
    assert_eq!(normalize_host(" http://8.8.8.8:80/ "), Ok("8.8.8.8".to_string()));
}

#[test]
fn url_without_host_names_the_problem() {
    assert_eq!(normalize_host("file:///tmp/x"), Ok("No target host found".to_string()));
    assert_eq!(extract_host_from_url("unix:///run/sock"), Ok("No target host found".to_string()));
}

#[test]
fn malformed_url_is_refused() {
    assert_eq!(normalize_host("://nothing"), Err(BotPingError::BadUrl));
    assert_eq!(BotPingError::BadUrl.message(), "Malformed URL");
}

#[test]
fn dotted_quads_must_be_addresses() {
    assert_eq!(normalize_host("8.8.8.8"), Ok("8.8.8.8".to_string()));
    assert_eq!(normalize_host("256.1.1.1"), Err(BotPingError::NotAHost));
    assert_eq!(normalize_host("01.1.1.1"), Err(BotPingError::NotAHost));
    assert_eq!(normalize_host("\u{661}.\u{661}.\u{661}.\u{661}"), Err(BotPingError::NotAHost));
    assert_eq!(extract_host_from_ip("10.0.0.255"), Ok("10.0.0.255".to_string()));
    assert_eq!(extract_host_from_ip("10.0.0"), Err(BotPingError::NotAHost));
    assert_eq!(BotPingError::NotAHost.message(), "Not a valid host");
}

#[test]
fn other_digit_runs_are_host_names() {
    assert_eq!(normalize_host("1.2.3.4.5"), Ok("1.2.3.4.5".to_string()));
    assert_eq!(normalize_host("1234.1.1.1"), Ok("1234.1.1.1".to_string()));
}

#[test]
fn ipv4_text_matches_std_parsing() {
    let cases = [
        ("0.0.0.0", true),
        ("255.255.255.255", true),
        ("1.2.3.4", true),
        ("300.1.1.1", false),
        ("1.2.3", false),
        ("1..2.3", false),
        ("00.1.1.1", false),
        ("+1.1.1.1", false),
        ("1.2.3.4.", false),
        ("", false),
    ];
    for (s, expected) in cases {
        let chars: Vec<char> = s.chars().collect();
        assert_eq!(is_ipv4(&chars), expected, "{s}");
    }
}
