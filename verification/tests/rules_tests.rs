use that_sky_ahook::rules::{
    copy_rule, parse_host, parse_rules, rules, set_rules, DomainRule, HookSettings,
};

fn rule(origin: &str, origin_port: Option<&str>, target: &str, target_port: Option<&str>) -> DomainRule {
    DomainRule {
        origin: origin.to_string(),
        origin_port: origin_port.map(|p| p.to_string()),
        target: target.to_string(),
        target_port: target_port.map(|p| p.to_string()),
    }
}

#[test]
fn parse_single_rule() {
    assert_eq!(parse_rules("a.com -> b.com"), vec![rule("a.com", None, "b.com", None)]);
}

#[test]
fn parse_rule_with_ports() {
    assert_eq!(
        parse_rules("game.example:443 -> 127.0.0.1:8080"),
        vec![rule("game.example", Some("443"), "127.0.0.1", Some("8080"))]
    );
}

#[test]
fn parse_all_separators_and_skips_non_rules() {
    let text = "a->b, c:1->d\n\nnot a rule;e -> f:2;  ; x ->  ";
    assert_eq!(
        parse_rules(text),
        vec![
            rule("a", None, "b", None),
            rule("c", Some("1"), "d", None),
            rule("e", None, "f", Some("2")),
        ]
    );
}

#[test]
fn parse_empty_text_gives_no_rules() {
    assert_eq!(parse_rules(""), Vec::<DomainRule>::new());
    assert_eq!(parse_rules(",,;\n"), Vec::<DomainRule>::new());
}

#[test]
fn parse_first_arrow_splits() {
    assert_eq!(parse_rules("a-->b"), vec![rule("a-", None, "b", None)]);
    assert_eq!(parse_rules("a->b->c"), vec![rule("a", None, "b->c", None)]);
}

#[test]
fn parse_trims_unicode_whitespace() {
    assert_eq!(
        parse_rules("\u{3000}\t a.com\u{00A0}->\u{2003}b.com \r"),
        vec![rule("a.com", None, "b.com", None)]
    );
}

#[test]
fn parse_colon_only_origin_is_empty_host() {
    assert_eq!(parse_rules(":->b"), vec![rule("", None, "b", None)]);
}

#[test]
fn parse_host_cases() {
    assert_eq!(parse_host(""), None);
    assert_eq!(parse_host("host"), Some(("host".to_string(), None)));
    assert_eq!(parse_host("host:80"), Some(("host".to_string(), Some("80".to_string()))));
    assert_eq!(parse_host("host:"), Some(("host".to_string(), None)));
    assert_eq!(parse_host("host:::"), Some(("host".to_string(), None)));
    assert_eq!(parse_host(":80"), Some((":80".to_string(), None)));
    assert_eq!(parse_host("a:b:c"), Some(("a:b".to_string(), Some("c".to_string()))));
    assert_eq!(parse_host("::"), Some(("".to_string(), None)));
    assert_eq!(parse_host("[::1]:80"), Some(("[::1]".to_string(), Some("80".to_string()))));
}

#[test]
fn parse_rules_concat_law_example() {
    let a = "x.com:1 -> y.com";
    let b = "z.com -> w.com:2, bad";
    let mut joined = parse_rules(a);
    joined.extend(parse_rules(b));
    assert_eq!(parse_rules(&format!("{a};{b}")), joined);
    assert_eq!(parse_rules(&format!("{a},{b}")), joined);
    assert_eq!(parse_rules(&format!("{a}\n{b}")), joined);
}

#[test]
fn parsed_rules_are_well_split() {
    for r in parse_rules("a::b -> c:, d: -> e:f:g, h:i:: -> j") {
        for (host, port) in [(&r.origin, &r.origin_port), (&r.target, &r.target_port)] {
            match port {
                Some(p) => {
                    assert!(!p.is_empty() && !p.contains(':') && !host.is_empty());
                }
                None => assert!(!host.ends_with(':')),
            }
        }
    }
}

#[test]
fn settings_start_with_defaults() {
    let s = HookSettings::new();
    assert!(s.skip_cert_verify);
    assert!(!s.force_http);
    assert!(s.rewrite_domain);
    assert!(rules(&s).is_empty());
}

#[test]
fn rules_returns_what_set_rules_stored() {
    let mut s = HookSettings::new();
    s.force_http = true;
    let stored = vec![rule("a", Some("1"), "b", None), rule("c", None, "d", Some("2"))];
    set_rules(&mut s, stored.clone());
    assert_eq!(rules(&s), stored);
    assert!(s.force_http && s.skip_cert_verify && s.rewrite_domain);
    set_rules(&mut s, Vec::new());
    assert!(rules(&s).is_empty());
}

#[test]
fn copy_rule_copies_every_field() {
    let r = rule("o", Some("1"), "t", Some("2"));
    assert_eq!(copy_rule(&r), r);
}
