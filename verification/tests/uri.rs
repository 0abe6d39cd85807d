//! Normal forms of methods and URIs.

use dpop_verifier::error::DpopError;
use dpop_verifier::uri::{normalize_htu, normalize_method, normalize_parts, UrlParts};

#[test]
fn lowercases_scheme_and_host_and_strips_qf_and_default_ports() {
    let got = normalize_htu("HTTPS://EXAMPLE.com:443/Api/v1?q=1#frag").unwrap();
    assert_eq!(got, "https://example.com/Api/v1");
}

#[test]
fn keeps_non_default_port() {
    let got = normalize_htu("http://example.com:8080/a/b").unwrap();
    assert_eq!(got, "http://example.com:8080/a/b");
}

#[test]
fn empty_path_becomes_root() {
    let got = normalize_htu("https://example.com").unwrap();
    assert_eq!(got, "https://example.com/");
}

#[test]
fn resolves_dot_segments() {
    let got = normalize_htu("https://ex.com/a/./b/../c").unwrap();
    assert_eq!(got, "https://ex.com/a/c");
}

#[test]
fn collapses_redundant_slashes() {
    let got = normalize_htu("https://ex.com//a///b////c").unwrap();
    assert_eq!(got, "https://ex.com/a/b/c");
}

#[test]
fn ipv6_and_default_port_elision() {
    let got = normalize_htu("https://[2001:db8::1]:443/a").unwrap();
    assert_eq!(got, "https://[2001:db8::1]/a");
}

#[test]
fn ipv6_non_default_port_kept() {
    let got = normalize_htu("http://[2001:db8::1]:8080/a").unwrap();
    assert_eq!(got, "http://[2001:db8::1]:8080/a");
}

#[test]
fn rejects_non_http_schemes() {
    let err = normalize_htu("ftp://example.com/a").unwrap_err();
    assert!(matches!(err, DpopError::MalformedHtu(_)));
}

#[test]
fn rejects_missing_or_empty_host() {
    assert!(matches!(
        normalize_htu("https:"),
        Err(DpopError::MalformedHtu(_))
    ));
    assert!(matches!(
        normalize_htu("https://"),
        Err(DpopError::MalformedHtu(_))
    ));
}

#[test]
fn idempotent_when_already_normalized() {
    let input = "https://example.com/a/b";
    let once = normalize_htu(input).unwrap();
    let twice = normalize_htu(&once).unwrap();
    assert_eq!(once, twice);
    assert_eq!(twice, "https://example.com/a/b");
}

#[test]
fn preserves_path_case() {
    // Only scheme/host are lowercased; path casing must be preserved.
    let got = normalize_htu("https://EX.com/Api/V1/Users").unwrap();
    assert_eq!(got, "https://ex.com/Api/V1/Users");
}

#[test]
fn removes_query_and_fragment_only() {
    let got = normalize_htu("http://ex.com/a/b?x=1&y=2#sec").unwrap();
    assert_eq!(got, "http://ex.com/a/b");
}

#[test]
fn resolves_trailing_parent_segment() {
    let got = normalize_htu("http://ex.com/a/b/..").unwrap();
    assert_eq!(got, "http://ex.com/a");
}

#[test]
fn normalize_helpers_examples() {
    assert_eq!(
        normalize_htu("https://EX.com:443/a/./b/../c?x=1#frag").unwrap(),
        "https://ex.com/a/c"
    );
    assert_eq!(normalize_method("get").unwrap(), "GET");
    assert!(normalize_method("CUSTOM").is_err());
}

#[test]
fn every_standard_method_is_its_own_normal_form() {
    for method in [
        "GET", "POST", "PUT", "PATCH", "DELETE", "HEAD", "OPTIONS", "TRACE",
    ] {
        assert_eq!(normalize_method(method).unwrap(), method);
        assert_eq!(normalize_method(&method.to_lowercase()).unwrap(), method);
        assert_eq!(normalize_method(&format!(" \t{method}\n")).unwrap(), method);
    }
}

#[test]
fn other_methods_are_refused() {
    for method in ["", " ", "CONNECT", "GE T", "GETS", "G\u{c9}T"] {
        assert_eq!(normalize_method(method), Err(DpopError::InvalidMethod));
    }
}

#[test]
fn white_space_around_a_method_is_that_of_unicode() {
    assert_eq!(normalize_method("\u{a0}\u{2003}put\u{3000}").unwrap(), "PUT");
    assert_eq!(normalize_method("\u{200b}put"), Err(DpopError::InvalidMethod));
}

#[test]
fn the_reason_for_refusing_a_uri_is_given() {
    assert_eq!(
        normalize_htu("ftp://example.com/a"),
        Err(DpopError::MalformedHtu("scheme".to_string()))
    );
    assert_eq!(
        normalize_htu("https://"),
        Err(DpopError::MalformedHtu("empty host".to_string()))
    );
    assert_eq!(
        normalize_htu("/a/b"),
        Err(DpopError::MalformedHtu(
            "relative URL without a base".to_string()
        ))
    );
}

#[test]
fn the_default_port_of_the_other_scheme_is_kept() {
    assert_eq!(
        normalize_htu("http://ex.com:443/").unwrap(),
        "http://ex.com:443/"
    );
    assert_eq!(
        normalize_htu("https://ex.com:80/").unwrap(),
        "https://ex.com:80/"
    );
    assert_eq!(normalize_htu("http://ex.com:80/").unwrap(), "http://ex.com/");
}

#[test]
fn a_normal_uri_is_normal_whatever_it_was_made_from() {
    for uri in [
        "https://EX.com//a/%2e%2e/b/./c//?q#f",
        "http://user:pw@ex.com:8080/a b/..",
        "https://b\u{fc}cher.example/stra\u{df}e",
        "https://ex.com/../../a/",
        "http://ex.com\\a\\..\\b",
        "https://ex.com/a/%2E/b",
        "https://ex.com:0/;a=b/c^d|e'f",
    ] {
        let once = normalize_htu(uri).unwrap();
        assert_eq!(normalize_htu(&once).unwrap(), once, "{uri}");
    }
    assert_eq!(
        normalize_htu("https://b\u{fc}cher.example/a").unwrap(),
        "https://xn--bcher-kva.example/a"
    );
    assert_eq!(
        normalize_htu("http://user:pw@ex.com/a").unwrap(),
        "http://user:pw@ex.com/a"
    );
    assert_eq!(normalize_htu("https://ex.com/a b").unwrap(), "https://ex.com/a%20b");
}

fn parts(scheme: &str, host: Option<&str>, port: Option<u16>, path: &str) -> UrlParts {
    UrlParts {
        scheme: scheme.to_string(),
        user_info: String::new(),
        host: host.map(|host| host.to_string()),
        port,
        path: path.to_string(),
    }
}

#[test]
fn parts_are_normalized_one_by_one() {
    let normal = normalize_parts(&parts("HTTPS", Some("EX.com"), Some(443), "/a/./b//../c/")).unwrap();
    assert_eq!(normal.scheme, "https");
    assert_eq!(normal.host.as_deref(), Some("ex.com"));
    assert_eq!(normal.port, None);
    assert_eq!(normal.path, "/a/c");
    let normal = normalize_parts(&parts("http", Some("h"), Some(443), "")).unwrap();
    assert_eq!(normal.port, Some(443));
    assert_eq!(normal.path, "/");
}

#[test]
fn parts_without_scheme_host_or_path_are_refused() {
    let reason = |parts: UrlParts| match normalize_parts(&parts) {
        Err(DpopError::MalformedHtu(reason)) => reason,
        other => panic!("{other:?}"),
    };
    assert_eq!(reason(parts("ftp", Some("h"), None, "/")), "scheme");
    assert_eq!(reason(parts("http", None, None, "/")), "Missing host");
    assert_eq!(reason(parts("http", Some(""), None, "/")), "Missing host");
    assert_eq!(
        reason(parts("http", Some("h"), None, "a")),
        "Missing path segment"
    );
}

#[test]
fn a_host_that_cannot_be_read_again_is_refused() {
    let label: String = (0..1000u32)
        .map(|k| char::from_u32(0x20000 + 42 * k).unwrap())
        .collect();
    let uri = format!("https://{label}/");
    let host = url::Url::parse(&uri).unwrap().host_str().unwrap().to_string();
    let reason = url::Host::parse(&host).unwrap_err();
    assert_eq!(
        normalize_htu(&uri),
        Err(DpopError::MalformedHtu(format!(
            "Failed setting host: {reason}"
        )))
    );
}

#[test]
fn a_query_and_a_fragment_change_nothing() {
    for uri in [
        "https://ex.com",
        "https://ex.com/a/..",
        "http://user:pw@EX.com:8080/a%2e/b\\c",
        "https://[2001:db8::1]:443",
        "https://b\u{fc}cher.example/stra\u{df}e",
    ] {
        let normal = normalize_htu(uri).unwrap();
        assert!(!normal.contains('?') && !normal.contains('#'));
        for tail in [
            "?", "#", "?q", "#f", "?q#f", "?a/../b@c:1", "#?", "?#", "?\u{e9}\t '\"<>#\u{1f600} ", "? ",
        ] {
            assert_eq!(normalize_htu(&format!("{uri}{tail}")).unwrap(), normal);
        }
    }
}
