use that_sky_ahook::net_uri::{replace_domain, strcpy_fixed, verify_cert_override, NetUri};
use that_sky_ahook::rules::{set_rules, DomainRule, HookSettings};

fn field<const N: usize>(s: &[u8]) -> [u8; N] {
    let mut a = [0u8; N];
    a[..s.len()].copy_from_slice(s);
    a
}

fn uri(protocol: &str, domain: &[u8], port: &[u8], path: &str) -> NetUri {
    NetUri {
        protocol: field(protocol.as_bytes()),
        domain: field(domain),
        port: field(port),
        path: field(path.as_bytes()),
    }
}

fn text<const N: usize>(a: &[u8; N]) -> &[u8] {
    let end = a.iter().position(|b| *b == 0).unwrap_or(N);
    &a[..end]
}

fn rule(origin: &str, origin_port: Option<&str>, target: &str, target_port: Option<&str>) -> DomainRule {
    DomainRule {
        origin: origin.to_string(),
        origin_port: origin_port.map(|p| p.to_string()),
        target: target.to_string(),
        target_port: target_port.map(|p| p.to_string()),
    }
}

fn settings(force_http: bool, rewrite: bool, rules: Vec<DomainRule>) -> HookSettings {
    let mut s = HookSettings::new();
    s.force_http = force_http;
    s.rewrite_domain = rewrite;
    set_rules(&mut s, rules);
    s
}

#[test]
fn strcpy_fixed_copies_and_terminates() {
    let mut a = [9u8; 8];
    strcpy_fixed(&mut a, "http");
    assert_eq!(a, [b'h', b't', b't', b'p', 0, 9, 9, 9]);
}

#[test]
fn strcpy_fixed_truncates_to_fit() {
    let mut a = [9u8; 6];
    strcpy_fixed(&mut a, "1234567890");
    assert_eq!(a, [b'1', b'2', b'3', b'4', b'5', 0]);
    let mut one = [7u8; 1];
    strcpy_fixed(&mut one, "abc");
    assert_eq!(one, [0]);
}

#[test]
fn strcpy_fixed_exact_fit() {
    let mut a = [9u8; 6];
    strcpy_fixed(&mut a, "12345");
    assert_eq!(a, [b'1', b'2', b'3', b'4', b'5', 0]);
}

#[test]
fn force_http_rewrites_protocol_only() {
    let s = settings(true, false, vec![rule("a.com", None, "b.com", None)]);
    let mut u = uri("https", b"a.com", b"443", "/p");
    replace_domain(&mut u, &s);
    assert_eq!(text(&u.protocol), b"http");
    assert_eq!(text(&u.domain), b"a.com");
    assert_eq!(text(&u.port), b"443");
    assert_eq!(text(&u.path), b"/p");
}

#[test]
fn rewrite_with_ports() {
    let s = settings(false, true, vec![rule("a.com", Some("443"), "127.0.0.1", Some("8080"))]);
    let mut u = uri("https", b"a.com", b"443", "/x");
    replace_domain(&mut u, &s);
    assert_eq!(text(&u.protocol), b"https");
    assert_eq!(text(&u.domain), b"127.0.0.1");
    assert_eq!(text(&u.port), b"8080");
    assert_eq!(text(&u.path), b"/x");
}

#[test]
fn origin_port_mismatch_keeps_request() {
    let s = settings(false, true, vec![rule("a.com", Some("80"), "b.com", None)]);
    let mut u = uri("https", b"a.com", b"443", "/");
    let before = u;
    replace_domain(&mut u, &s);
    assert_eq!(u, before);
}

#[test]
fn rule_without_ports_keeps_port() {
    let s = settings(false, true, vec![rule("a.com", None, "b.com", None)]);
    let mut u = uri("https", b"a.com", b"443", "/");
    replace_domain(&mut u, &s);
    assert_eq!(text(&u.domain), b"b.com");
    assert_eq!(text(&u.port), b"443");
}

#[test]
fn first_matching_rule_wins() {
    let s = settings(
        false,
        true,
        vec![
            rule("x.com", None, "never", None),
            rule("a.com", None, "first", None),
            rule("a.com", None, "second", None),
        ],
    );
    let mut u = uri("https", b"a.com", b"", "/");
    replace_domain(&mut u, &s);
    assert_eq!(text(&u.domain), b"first");
}

#[test]
fn rewrite_disabled_keeps_request() {
    let s = settings(false, false, vec![rule("a.com", None, "b.com", None)]);
    let mut u = uri("https", b"a.com", b"443", "/");
    let before = u;
    replace_domain(&mut u, &s);
    assert_eq!(u, before);
}

#[test]
fn invalid_utf8_domain_is_not_rewritten() {
    let s = settings(false, true, vec![rule("a.com", None, "b.com", None)]);
    let mut u = uri("https", &[b'a', 0xff, b'c'], b"443", "/");
    let before = u;
    replace_domain(&mut u, &s);
    assert_eq!(u, before);
}

#[test]
fn invalid_utf8_port_reads_as_empty() {
    let s = settings(false, true, vec![rule("a.com", Some(""), "b.com", Some("1"))]);
    let mut u = uri("https", b"a.com", &[0xc3, 0x28], "/");
    replace_domain(&mut u, &s);
    assert_eq!(text(&u.domain), b"b.com");
    assert_eq!(text(&u.port), b"1");
}

#[test]
fn long_target_is_truncated_to_the_field() {
    let long = "t".repeat(200);
    let s = settings(false, true, vec![rule("a.com", None, &long, Some("1234567"))]);
    let mut u = uri("https", b"a.com", b"443", "/");
    replace_domain(&mut u, &s);
    assert_eq!(text(&u.domain), "t".repeat(127).as_bytes());
    assert_eq!(u.domain[127], 0);
    assert_eq!(text(&u.port), b"12345");
}

#[test]
fn unterminated_domain_field_reads_whole_field() {
    let s = settings(false, true, vec![rule(&"d".repeat(128), None, "ok", None)]);
    let mut u = uri("https", b"", b"", "/");
    u.domain = [b'd'; 128];
    replace_domain(&mut u, &s);
    assert_eq!(text(&u.domain), b"ok");
}

#[test]
fn cert_override_follows_the_switch() {
    let mut s = HookSettings::new();
    assert_eq!(verify_cert_override(&s), Some(1));
    s.skip_cert_verify = false;
    assert_eq!(verify_cert_override(&s), None);
}
