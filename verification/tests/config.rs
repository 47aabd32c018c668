use qdrant_vector::config::{Config, ConfigError};
use qdrant_vector::text::{
    i64_to_decimal, is_blank_str, parse_u16_exec, replace_all_literal, trim_chars, u64_to_decimal,
};

#[test]
fn config_defaults() {
    let c = Config::from_vars(None, None, None, None).unwrap();
    assert_eq!(c.qdrant_url, "http://localhost:6334");
    assert_eq!(c.qdrant_api_key, None);
    assert_eq!(c.server_host, "0.0.0.0");
    assert_eq!(c.server_port, 3000);
    assert_eq!(c.server_address(), "0.0.0.0:3000");
}

#[test]
fn config_given_values() {
    let c = Config::from_vars(
        Some("http://10.0.0.2:6334".to_string()),
        Some("SECRET-REDACTED".to_string()),
        Some("127.0.0.1".to_string()),
        Some("8080".to_string()),
    )
    .unwrap();
    assert_eq!(c.qdrant_url, "http://10.0.0.2:6334");
    assert_eq!(c.qdrant_api_key.as_deref(), Some("SECRET-REDACTED"));
    assert_eq!(c.server_address(), "127.0.0.1:8080");
}

#[test]
fn config_bad_port_is_refused() {
    for bad in ["abc", "", "+", "-1", "65536", " 80", "8080x"] {
        match Config::from_vars(None, None, None, Some(bad.to_string())) {
            Err(ConfigError::InvalidPort(p)) => assert_eq!(p, bad),
            Ok(c) => panic!("{} accepted as {}", bad, c.server_port),
        }
    }
}

#[test]
fn port_parses_like_u16_from_str() {
    for s in ["0", "80", "+80", "0080", "65535", "65536", "99999999999", "", "+", "-0", "1_0", "٣"] {
        assert_eq!(parse_u16_exec(s), s.parse::<u16>().ok(), "{}", s);
    }
}

#[test]
fn port_roundtrip() {
    for p in [0u16, 1, 9, 10, 80, 443, 3000, 65535] {
        assert_eq!(parse_u16_exec(&u64_to_decimal(p as u64)), Some(p));
    }
}

#[test]
fn decimals_like_to_string() {
    for n in [0u64, 7, 10, 99, 100, 12345, u64::MAX] {
        assert_eq!(u64_to_decimal(n), n.to_string());
    }
    for i in [0i64, -1, 5, -10, i64::MAX, i64::MIN] {
        assert_eq!(i64_to_decimal(i), i.to_string());
    }
}

#[test]
fn blank_like_trim_is_empty() {
    for s in ["", " ", "\t\n\r", "\u{3000}\u{a0}\u{2028}", " a ", "x", "\u{200b}"] {
        assert_eq!(is_blank_str(s), s.trim().is_empty(), "{:?}", s);
    }
}

#[test]
fn trim_like_str_trim() {
    for s in ["", "  ", " a b ", "\u{3000}题\u{3000}", "x"] {
        let v: Vec<char> = s.chars().collect();
        let t: String = trim_chars(&v).into_iter().collect();
        assert_eq!(t, s.trim());
    }
}

#[test]
fn replace_like_str_replace() {
    let cases = [("aaa", "aa", "b"), ("abcabc", "bc", ""), ("x", "xy", "z"), ("&amp;lt;", "&amp;", "&")];
    for (s, p, r) in cases {
        let sv: Vec<char> = s.chars().collect();
        let pv: Vec<char> = p.chars().collect();
        let rv: Vec<char> = r.chars().collect();
        let got: String = replace_all_literal(&sv, &pv, &rv).into_iter().collect();
        assert_eq!(got, s.replace(p, r));
    }
}
