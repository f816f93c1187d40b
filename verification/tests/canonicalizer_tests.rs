use lectara_service::query::{fold_pairs, insert_pair};
use lectara_service::text::{chars_less, chars_of, decimal_string, starts_with, str_equal, str_is_blank, str_less};
use lectara_service::validation::{
    is_local_address, join_pairs, normalize_path, normalize_port, normalize_url, validate_url,
    Scheme, UrlParts, ValidatedUrl, ValidationError,
};

fn parts(scheme: &str, host: Option<&str>, port: Option<u16>, path: &str) -> UrlParts {
    UrlParts {
        scheme: scheme.to_string(),
        host: host.map(|h| h.to_string()),
        port,
        path: path.to_string(),
        query: None,
        query_pairs: vec![],
    }
}

fn pair(k: &str, v: &str) -> (String, String) {
    (k.to_string(), v.to_string())
}

#[test]
fn canonical_output_is_a_fixed_point() {
    for raw in [
        "https://example.com",
        "HTTPS://EXAMPLE.COM:443/Path/To/Resource/?c=3&a=1&b=2#fragment",
        "http://example.com:8080/a/b/?z=26&y=25",
        "https://example.com/search?a=1&b=&c=3",
    ] {
        let once = normalize_url(raw).unwrap();
        let twice = normalize_url(&once).unwrap();
        assert_eq!(twice, once);
    }
}

#[test]
fn query_reordering_gives_the_same_canonical_url() {
    assert_eq!(
        normalize_url("https://h/p?b=2&a=1").unwrap(),
        normalize_url("https://h/p?a=1&b=2").unwrap()
    );
    assert_eq!(normalize_url("https://h/p?b=2&a=1").unwrap(), "https://h/p?a=1&b=2");
}

#[test]
fn default_ports_are_elided() {
    assert_eq!(
        normalize_url("https://h:443/p").unwrap(),
        normalize_url("https://h/p").unwrap()
    );
    assert_eq!(
        normalize_url("http://h:80/p").unwrap(),
        normalize_url("http://h/p").unwrap()
    );
    assert_eq!(normalize_url("https://h:80/p").unwrap(), "https://h:80/p");
    assert_eq!(normalize_url("http://h:443/p").unwrap(), "http://h:443/p");
}

#[test]
fn trailing_slash_is_stripped_except_for_root() {
    assert_eq!(
        normalize_url("https://h/p/").unwrap(),
        normalize_url("https://h/p").unwrap()
    );
    assert_eq!(normalize_url("https://h").unwrap(), "https://h/");
    assert_eq!(normalize_url("https://h/a//").unwrap(), "https://h/a/");
}

#[test]
fn rejection_set_gives_each_kind() {
    assert_eq!(normalize_url(""), Err(ValidationError::EmptyUrl));
    assert_eq!(
        normalize_url("ftp://h"),
        Err(ValidationError::UnsupportedScheme("ftp".to_string()))
    );
    assert_eq!(
        normalize_url("javascript:x"),
        Err(ValidationError::UnsupportedScheme("javascript".to_string()))
    );
    assert_eq!(
        normalize_url("https://localhost"),
        Err(ValidationError::LocalAddress("localhost".to_string()))
    );
    assert_eq!(
        normalize_url("http://127.0.0.1"),
        Err(ValidationError::LocalAddress("127.0.0.1".to_string()))
    );
    assert_eq!(
        normalize_url("not-a-url"),
        Err(ValidationError::MalformedUrl("not-a-url".to_string()))
    );
}

#[test]
fn missing_host_is_rejected() {
    assert_eq!(
        ValidatedUrl::try_from(parts("https", None, None, "/")),
        Err(ValidationError::MissingHost)
    );
    assert_eq!(
        ValidatedUrl::try_from(parts("http", Some(""), None, "/")),
        Err(ValidationError::MissingHost)
    );
}

#[test]
fn scheme_is_checked_before_host() {
    assert_eq!(
        ValidatedUrl::try_from(parts("ftp", None, None, "/")),
        Err(ValidationError::UnsupportedScheme("ftp".to_string()))
    );
    assert_eq!(
        ValidatedUrl::try_from(parts("HTTP", Some("example.com"), None, "/")),
        Err(ValidationError::UnsupportedScheme("HTTP".to_string()))
    );
}

#[test]
fn host_is_lowercased_before_the_local_filter() {
    let v = ValidatedUrl::try_from(parts("https", Some("EXAMPLE.Com"), None, "/x")).unwrap();
    assert_eq!(v.host, "example.com");
    assert_eq!(
        ValidatedUrl::try_from(parts("https", Some("LOCALHOST"), None, "/")),
        Err(ValidationError::LocalAddress("localhost".to_string()))
    );
}

#[test]
fn local_filter_is_a_coarse_prefix_check() {
    assert!(is_local_address("localhost"));
    assert!(is_local_address("127.0.0.1"));
    assert!(is_local_address("127.example.com"));
    assert!(is_local_address("192.168.0.1"));
    assert!(is_local_address("10.1.2.3"));
    assert!(!is_local_address("localhost.example.com"));
    assert!(!is_local_address("172.16.0.1"));
    assert!(!is_local_address("192.169.0.1"));
    assert!(!is_local_address("100.1.2.3"));
    assert!(!is_local_address("example.com"));
    assert!(!is_local_address(""));
}

#[test]
fn port_and_path_normalization() {
    assert_eq!(normalize_port(Scheme::Http, Some(80)), None);
    assert_eq!(normalize_port(Scheme::Https, Some(443)), None);
    assert_eq!(normalize_port(Scheme::Http, Some(443)), Some(443));
    assert_eq!(normalize_port(Scheme::Https, Some(8080)), Some(8080));
    assert_eq!(normalize_port(Scheme::Https, None), None);
    assert_eq!(normalize_path(""), "/");
    assert_eq!(normalize_path("/"), "/");
    assert_eq!(normalize_path("/a"), "/a");
    assert_eq!(normalize_path("/a/"), "/a");
    assert_eq!(normalize_path("//"), "/");
    assert_eq!(normalize_path("/a//"), "/a/");
    assert_eq!(normalize_path("/caf\u{e9}/"), "/caf\u{e9}");
}

#[test]
fn last_occurrence_of_a_key_wins() {
    assert_eq!(
        normalize_url("https://example.com/p?a=1&b=2&a=3").unwrap(),
        "https://example.com/p?a=3&b=2"
    );
    let folded = fold_pairs(&vec![pair("k", "1"), pair("a", "x"), pair("k", "2"), pair("k", "")]);
    assert_eq!(folded, vec![pair("a", "x"), pair("k", "")]);
}

#[test]
fn empty_query_is_no_query() {
    assert_eq!(normalize_url("https://example.com/p?").unwrap(), "https://example.com/p");
    let v = validate_url("https://example.com/p?").unwrap();
    assert_eq!(v.query, None);
    let mut with_query = parts("https", Some("example.com"), None, "/p");
    with_query.query = Some(String::new());
    assert_eq!(ValidatedUrl::try_from(with_query).unwrap().query, None);
}

#[test]
fn pairs_without_a_query_string_are_ignored() {
    let mut p = parts("https", Some("example.com"), None, "/p");
    p.query_pairs = vec![pair("a", "1")];
    let v = ValidatedUrl::try_from(p).unwrap();
    assert_eq!(v.query, None);
    assert_eq!(v.to_string(), "https://example.com/p");
}

#[test]
fn keys_sort_by_code_point() {
    let folded = fold_pairs(&vec![
        pair("b", "1"),
        pair("B", "2"),
        pair("ab", "3"),
        pair("a", "4"),
        pair("", "5"),
        pair("\u{e9}", "6"),
    ]);
    let keys: Vec<&str> = folded.iter().map(|p| p.0.as_str()).collect();
    assert_eq!(keys, vec!["", "B", "a", "ab", "b", "\u{e9}"]);
    assert!(str_less("a", "ab"));
    assert!(str_less("B", "a"));
    assert!(!str_less("a", "a"));
    assert!(!str_less("b", "a"));
    assert!(chars_less(&chars_of("z"), &chars_of("\u{e9}")));
}

#[test]
fn insert_pair_overwrites_in_place() {
    let mut entries = vec![pair("a", "1"), pair("c", "3")];
    insert_pair(&mut entries, "b".to_string(), "2".to_string());
    assert_eq!(entries, vec![pair("a", "1"), pair("b", "2"), pair("c", "3")]);
    insert_pair(&mut entries, "c".to_string(), "9".to_string());
    assert_eq!(entries, vec![pair("a", "1"), pair("b", "2"), pair("c", "9")]);
    insert_pair(&mut entries, "d".to_string(), "".to_string());
    assert_eq!(join_pairs(&entries), "a=1&b=2&c=9&d");
}

#[test]
fn serialization_formula() {
    let v = ValidatedUrl {
        scheme: Scheme::Http,
        host: "example.com".to_string(),
        port: Some(8080),
        path: "/a/b".to_string(),
        query: Some(vec![pair("k", "v"), pair("z", "")]),
    };
    assert_eq!(v.to_string(), "http://example.com:8080/a/b?k=v&z");
    let bare = ValidatedUrl {
        scheme: Scheme::Https,
        host: "h".to_string(),
        port: None,
        path: "/".to_string(),
        query: Some(vec![]),
    };
    assert_eq!(bare.to_string(), "https://h/");
    assert_eq!(Scheme::Http.to_string(), "http");
    assert_eq!(Scheme::Https.as_str(), "https");
    assert_eq!(Scheme::parse("https"), Some(Scheme::Https));
    assert_eq!(Scheme::parse("Https"), None);
    assert_eq!(Scheme::Http.default_port(), 80);
    assert_eq!(Scheme::Https.default_port(), 443);
}

#[test]
fn decimal_rendering() {
    assert_eq!(decimal_string(0), "0");
    assert_eq!(decimal_string(7), "7");
    assert_eq!(decimal_string(80), "80");
    assert_eq!(decimal_string(8080), "8080");
    assert_eq!(decimal_string(65535), "65535");
    assert_eq!(normalize_url("https://example.com:65535/").unwrap(), "https://example.com:65535/");
}

#[test]
fn validation_error_messages() {
    assert_eq!(ValidationError::EmptyUrl.to_string(), "URL cannot be empty");
    assert_eq!(
        ValidationError::MalformedUrl("x y".to_string()).to_string(),
        "Malformed URL: x y"
    );
    assert_eq!(ValidationError::MissingHost.to_string(), "URL must have a host");
    assert_eq!(
        ValidationError::LocalAddress("10.0.0.1".to_string()).to_string(),
        "Local addresses not allowed: 10.0.0.1"
    );
    assert_eq!(
        ValidationError::UnsupportedScheme("ftp".to_string()).to_string(),
        "Unsupported URL scheme: ftp"
    );
}

#[test]
fn text_helpers() {
    assert!(str_equal("abc", "abc"));
    assert!(!str_equal("abc", "abd"));
    assert!(!str_equal("abc", "ab"));
    assert!(starts_with(&chars_of("127.0.0.1"), &chars_of("127.")));
    assert!(!starts_with(&chars_of("12"), &chars_of("127.")));
    assert!(starts_with(&chars_of("x"), &chars_of("")));
    assert!(str_is_blank(""));
    assert!(str_is_blank(" \t\n\u{a0}"));
    assert!(!str_is_blank(" a "));
}

#[test]
fn a_decoded_separator_breaks_the_fixed_point() {
    let once = normalize_url("https://example.com/p?a=%26b").unwrap();
    assert_eq!(once, "https://example.com/p?a=&b");
    assert_eq!(normalize_url(&once).unwrap(), "https://example.com/p?a&b");
}
