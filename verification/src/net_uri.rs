//! The request URL that the game's `HttpClient::Request` receives, and the
//! rewrite the hook applies to it: force plain HTTP, then the first domain
//! rule whose origin (and origin port, if any) matches.

use vstd::prelude::*;
use vstd::utf8::{decode_utf8, encode_utf8, valid_utf8};

use crate::rules::{HookSettings, RuleView};

verus! {

/// The game's URL record: four NUL-terminated byte fields.
#[derive(Debug, Clone, Copy, PartialEq, Eq)]
pub struct NetUri {
    pub protocol: [u8; 8],
    pub domain: [u8; 128],
    pub port: [u8; 6],
    pub path: [u8; 256],
}

/// The index of the first NUL at or after `i`, or the length when none is.
pub open spec fn nul_from(a: Seq<u8>, i: int) -> int
    decreases a.len() - i,
{
    if i < 0 || i >= a.len() {
        a.len() as int
    } else if a[i] == 0 {
        i
    } else {
        nul_from(a, i + 1)
    }
}

/// The bytes of a C string field: everything before the first NUL (the whole
/// field when it holds no NUL).
pub open spec fn c_str(a: Seq<u8>) -> Seq<u8> {
    a.take(nul_from(a, 0))
}

/// A field after `src` has been copied into it C-style: as many bytes as fit
/// before the last slot, then a NUL; the bytes after the NUL stay.
pub open spec fn copied_c_string(field: Seq<u8>, src: Seq<u8>) -> Seq<u8> {
    let n = if src.len() < field.len() - 1 {
        src.len() as int
    } else {
        field.len() - 1
    };
    src.take(n) + seq![0u8] + field.skip(n + 1)
}

/// The text of a C string field as `CStr::to_str` reads it; `None` when the
/// bytes are not UTF-8.
pub open spec fn field_text(a: Seq<u8>) -> Option<Seq<char>> {
    if valid_utf8(c_str(a)) {
        Some(decode_utf8(c_str(a)))
    } else {
        None
    }
}

/// Whether `rule` applies to a request for `domain` on `port`.
pub open spec fn rule_matches(rule: RuleView, domain: Seq<char>, port: Seq<char>) -> bool {
    &&& rule.origin == domain
    &&& match rule.origin_port {
        Some(p) => p == port,
        None => true,
    }
}

/// The first rule at index `>= i` that applies.
pub open spec fn match_from(rules: Seq<RuleView>, domain: Seq<char>, port: Seq<char>, i: int) -> Option<
    RuleView,
>
    decreases rules.len() - i,
{
    if i < 0 || i >= rules.len() {
        None
    } else if rule_matches(rules[i], domain, port) {
        Some(rules[i])
    } else {
        match_from(rules, domain, port, i + 1)
    }
}

/// The rule that rewrites a request whose domain and port fields are given:
/// none when the domain is not UTF-8; a port that is not UTF-8 reads as empty.
pub open spec fn rule_for(domain: Seq<u8>, port: Seq<u8>, rules: Seq<RuleView>) -> Option<RuleView> {
    match field_text(domain) {
        None => None,
        Some(d) => {
            let p = match field_text(port) {
                Some(p) => p,
                None => Seq::empty(),
            };
            match_from(rules, d, p, 0)
        },
    }
}

/// The domain and port fields after the rewrite rules have been applied.
pub open spec fn rewritten_host(
    domain: Seq<u8>,
    port: Seq<u8>,
    rewrite: bool,
    rules: Seq<RuleView>,
) -> (Seq<u8>, Seq<u8>) {
    if !rewrite {
        (domain, port)
    } else {
        match rule_for(domain, port, rules) {
            None => (domain, port),
            Some(r) => (
                copied_c_string(domain, encode_utf8(r.target)),
                match r.target_port {
                    Some(tp) => copied_c_string(port, encode_utf8(tp)),
                    None => port,
                },
            ),
        }
    }
}

/// `std::str::from_utf8`: documented to succeed exactly when the bytes are
/// valid UTF-8. The contract claims that and nothing about the error.
#[verifier::external_body]
fn utf8_is_valid(bytes: &[u8]) -> (r: bool)
    ensures
        r == valid_utf8(bytes@),
{
    std::str::from_utf8(bytes).is_ok()
}

/// Copy `src` into `dst`, null-terminating within bounds.
pub fn strcpy_fixed<const N: usize>(dst: &mut [u8; N], src: &str)
    requires
        N > 0,
    ensures
        final(dst)@ == copied_c_string(old(dst)@, encode_utf8(src@)),
{
    let bytes = src.as_bytes();
    let copy_len = if bytes.len() < N - 1 {
        bytes.len()
    } else {
        N - 1
    };
    let ghost start = dst@;
    let mut i: usize = 0;
    while i < copy_len
        invariant
            i <= copy_len < N,
            copy_len <= bytes@.len(),
            dst@.len() == N,
            forall|k: int| 0 <= k < i ==> dst@[k] == bytes@[k],
            forall|k: int| i <= k < N ==> dst@[k] == start[k],
        decreases copy_len - i,
    {
        dst[i] = bytes[i];
        i = i + 1;
    }
    dst[copy_len] = 0;
    assert(dst@ =~= copied_c_string(start, bytes@));
}

/// The bytes of a C string field.
fn c_str_bytes<const N: usize>(a: &[u8; N]) -> (r: Vec<u8>)
    ensures
        r@ == c_str(a@),
{
    let mut out: Vec<u8> = Vec::new();
    let mut i: usize = 0;
    while i < N && a[i] != 0
        invariant
            i <= N,
            a@.len() == N,
            nul_from(a@, i as int) == nul_from(a@, 0),
            out@ == a@.take(i as int),
        decreases N - i,
    {
        out.push(a[i]);
        assert(a@.take(i + 1) =~= a@.take(i as int).push(a@[i as int]));
        i = i + 1;
    }
    out
}

/// Whether two byte strings are equal.
fn bytes_equal(a: &[u8], b: &[u8]) -> (r: bool)
    ensures
        r == (a@ == b@),
{
    if a.len() != b.len() {
        return false;
    }
    let mut i: usize = 0;
    while i < a.len()
        invariant
            i <= a@.len(),
            a@.len() == b@.len(),
            forall|k: int| 0 <= k < i ==> a@[k] == b@[k],
        decreases a@.len() - i,
    {
        if a[i] != b[i] {
            return false;
        }
        i = i + 1;
    }
    assert(a@ =~= b@);
    true
}

/// For valid UTF-8 bytes, equality with an encoding is equality of the text.
proof fn lemma_bytes_match_text(bytes: Seq<u8>, text: Seq<char>)
    requires
        valid_utf8(bytes),
    ensures
        (bytes == encode_utf8(text)) == (decode_utf8(bytes) == text),
{
    vstd::utf8::encode_utf8_decode_utf8(text);
    vstd::utf8::decode_utf8_encode_utf8(bytes);
}

/// Apply the active settings (force HTTP + rewrite rules) to a [`NetUri`].
pub fn replace_domain(net_uri: &mut NetUri, settings: &HookSettings)
    ensures
        final(net_uri).path == old(net_uri).path,
        final(net_uri).protocol@ == if settings.force_http {
            copied_c_string(old(net_uri).protocol@, encode_utf8("http"@))
        } else {
            old(net_uri).protocol@
        },
        final(net_uri).domain@ == rewritten_host(
            old(net_uri).domain@,
            old(net_uri).port@,
            settings.rewrite_domain,
            settings.active(),
        ).0,
        final(net_uri).port@ == rewritten_host(
            old(net_uri).domain@,
            old(net_uri).port@,
            settings.rewrite_domain,
            settings.active(),
        ).1,
{
    if settings.force_http {
        strcpy_fixed(&mut net_uri.protocol, "http");
    }
    if !settings.rewrite_domain {
        return ;
    }
    let domain = c_str_bytes(&net_uri.domain);
    if !utf8_is_valid(domain.as_slice()) {
        return ;
    }
    let raw_port = c_str_bytes(&net_uri.port);
    let port = if utf8_is_valid(raw_port.as_slice()) {
        raw_port
    } else {
        Vec::new()
    };
    let ghost d = decode_utf8(domain@);
    let ghost p = match field_text(net_uri.port@) {
        Some(p) => p,
        None => Seq::<char>::empty(),
    };
    proof {
        if valid_utf8(raw_port@) {
            vstd::utf8::decode_utf8_encode_utf8(raw_port@);
        } else {
            assert(port@ =~= encode_utf8(Seq::<char>::empty()));
        }
        assert(valid_utf8(port@));
        assert(decode_utf8(port@) == p) by {
            if !valid_utf8(raw_port@) {
                vstd::utf8::encode_utf8_decode_utf8(Seq::<char>::empty());
            }
        }
    }
    let rules = &settings.active_rules;
    let n = rules.len();
    let mut i: usize = 0;
    while i < n
        invariant
            i <= n,
            n == rules@.len(),
            *rules == settings.active_rules,
            settings.rewrite_domain,
            valid_utf8(domain@),
            valid_utf8(port@),
            decode_utf8(domain@) == d,
            decode_utf8(port@) == p,
            domain@ == c_str(old(net_uri).domain@),
            d == decode_utf8(c_str(old(net_uri).domain@)),
            p == match field_text(old(net_uri).port@) {
                Some(p) => p,
                None => Seq::<char>::empty(),
            },
            net_uri.domain == old(net_uri).domain,
            net_uri.port == old(net_uri).port,
            net_uri.path == old(net_uri).path,
            net_uri.protocol@ == if settings.force_http {
                copied_c_string(old(net_uri).protocol@, encode_utf8("http"@))
            } else {
                old(net_uri).protocol@
            },
            match_from(settings.active(), d, p, i as int) == match_from(settings.active(), d, p, 0),
        decreases n - i,
    {
        let rule = &rules[i];
        proof {
            lemma_bytes_match_text(domain@, rule.origin@);
        }
        let origin_matches = bytes_equal(domain.as_slice(), rule.origin.as_str().as_bytes());
        let port_matches = match &rule.origin_port {
            None => true,
            Some(op) => {
                proof {
                    lemma_bytes_match_text(port@, op@);
                }
                bytes_equal(port.as_slice(), op.as_str().as_bytes())
            },
        };
        assert(settings.active()[i as int] == rule@);
        if origin_matches && port_matches {
            assert(rule_for(old(net_uri).domain@, old(net_uri).port@, settings.active()) == Some(
                rule@,
            ));
            strcpy_fixed(&mut net_uri.domain, rule.target.as_str());
            match &rule.target_port {
                Some(tp) => {
                    strcpy_fixed(&mut net_uri.port, tp.as_str());
                },
                None => {},
            }
            return ;
        }
        i = i + 1;
    }
}

/// What the certificate hook answers without asking the game's own check:
/// approval (`1`) while verification is skipped, otherwise nothing (the
/// game's own check decides).
pub fn verify_cert_override(settings: &HookSettings) -> (r: Option<i32>)
    ensures
        r == if settings.skip_cert_verify {
            Some(1i32)
        } else {
            None
        },
{
    if settings.skip_cert_verify {
        Some(1)
    } else {
        None
    }
}

} // verus!

verus! {

proof fn lemma_nul_from_first_zero(a: Seq<u8>, i: int, n: int)
    requires
        0 <= i <= n < a.len(),
        a[n] == 0,
        forall|k: int| i <= k < n ==> a[k] != 0,
    ensures
        nul_from(a, i) == n,
    decreases n - i,
{
    if i < n {
        lemma_nul_from_first_zero(a, i + 1, n);
    }
}

/// Copying a string without NUL bytes into a field and reading the field
/// back as a C string gives the string, cut to the field's room (one slot
/// is kept for the terminating NUL).
pub proof fn law_c_string_reads_back(field: Seq<u8>, src: Seq<u8>)
    requires
        field.len() > 0,
        !src.contains(0u8),
    ensures
        c_str(copied_c_string(field, src)) == src.take(
            if src.len() < field.len() - 1 {
                src.len() as int
            } else {
                field.len() - 1
            },
        ),
        copied_c_string(field, src).len() == field.len(),
{
    let n = if src.len() < field.len() - 1 {
        src.len() as int
    } else {
        field.len() - 1
    };
    let out = copied_c_string(field, src);
    assert forall|k: int| 0 <= k < n implies out[k] != 0 by {
        assert(out[k] == src[k]);
        if src[k] == 0 {
            assert(src.contains(0u8));
        }
    }
    assert(out[n] == 0);
    lemma_nul_from_first_zero(out, 0, n);
    assert(out.take(n) =~= src.take(n));
}

} // verus!

verus! {

/// The rewrite does what a rule says: when domain rewriting is on and a
/// rule applies to the request, the domain field afterwards reads back as
/// the rule's target (which fits the field and holds no NUL), and the port
/// field as the rule's target port when it has one, else as before.
pub proof fn law_rewrite_reads_back_target(
    domain: Seq<u8>,
    port: Seq<u8>,
    rules: Seq<RuleView>,
    rule: RuleView,
)
    requires
        domain.len() == 128,
        port.len() == 6,
        rule_for(domain, port, rules) == Some(rule),
        encode_utf8(rule.target).len() < 128,
        !encode_utf8(rule.target).contains(0u8),
        rule.target_port matches Some(tp) ==> encode_utf8(tp).len() < 6 && !encode_utf8(
            tp,
        ).contains(0u8),
    ensures
        c_str(rewritten_host(domain, port, true, rules).0) == encode_utf8(rule.target),
        c_str(rewritten_host(domain, port, true, rules).1) == match rule.target_port {
            Some(tp) => encode_utf8(tp),
            None => c_str(port),
        },
{
    let t = encode_utf8(rule.target);
    law_c_string_reads_back(domain, t);
    assert(t.take(t.len() as int) =~= t);
    match rule.target_port {
        Some(tp) => {
            let b = encode_utf8(tp);
            law_c_string_reads_back(port, b);
            assert(b.take(b.len() as int) =~= b);
        },
        None => {},
    }
}

} // verus!

verus! {

/// The text a port field is matched as: its UTF-8 text, empty when the
/// field is not UTF-8.
pub open spec fn port_text(port: Seq<u8>) -> Seq<char> {
    match field_text(port) {
        Some(p) => p,
        None => Seq::empty(),
    }
}

proof fn lemma_match_from_shift(rules: Seq<RuleView>, d: Seq<char>, p: Seq<char>, i: int)
    requires
        rules.len() > 0,
        0 <= i,
    ensures
        match_from(rules, d, p, i + 1) == match_from(rules.drop_first(), d, p, i),
    decreases rules.len() - i,
{
    if i + 1 < rules.len() {
        assert(rules.drop_first()[i] == rules[i + 1]);
        lemma_match_from_shift(rules, d, p, i + 1);
    }
}

proof fn lemma_match_from_first(rules: Seq<RuleView>, d: Seq<char>, p: Seq<char>, i: int)
    requires
        0 <= i,
    ensures
        match match_from(rules, d, p, i) {
            Some(r) => exists|k: int|
                i <= k < rules.len() && rules[k] == r && r.origin == d && (r.origin_port is None
                    || r.origin_port == Some(p)) && forall|j: int|
                    i <= j < k ==> !(rules[j].origin == d && (rules[j].origin_port is None
                        || rules[j].origin_port == Some(p))),
            None => forall|j: int|
                i <= j < rules.len() ==> !(rules[j].origin == d && (rules[j].origin_port is None
                    || rules[j].origin_port == Some(p))),
        },
    decreases rules.len() - i,
{
    if i < rules.len() {
        lemma_match_from_first(rules, d, p, i + 1);
        if !rule_matches(rules[i], d, p) {
            match match_from(rules, d, p, i + 1) {
                Some(r) => {
                    let k = choose|k: int|
                        i + 1 <= k < rules.len() && rules[k] == r && r.origin == d && (
                        r.origin_port is None || r.origin_port == Some(p)) && forall|j: int|
                            i + 1 <= j < k ==> !(rules[j].origin == d && (rules[j].origin_port
                                is None || rules[j].origin_port == Some(p)));
                    assert(forall|j: int|
                        i <= j < k ==> !(rules[j].origin == d && (rules[j].origin_port is None
                            || rules[j].origin_port == Some(p))));
                },
                None => {},
            }
        } else {
            assert(forall|j: int|
                i <= j < i ==> !(rules[j].origin == d && (rules[j].origin_port is None
                    || rules[j].origin_port == Some(p))));
        }
    }
}

/// The rule a request is rewritten by is the first rule of the list whose
/// origin host equals the request's domain and whose origin port is absent
/// or equals the request's port; every rule before it fails that test (a
/// rule whose host matches but whose port does not is passed over), and when
/// no rule passes it, none is used. A domain that is not UTF-8 is never
/// rewritten.
pub proof fn law_first_applicable_rule_is_used(domain: Seq<u8>, port: Seq<u8>, rules: Seq<RuleView>)
    ensures
        field_text(domain) is None ==> rule_for(domain, port, rules) is None,
        field_text(domain) matches Some(d) ==> match rule_for(domain, port, rules) {
            Some(r) => exists|k: int|
                0 <= k < rules.len() && rules[k] == r && r.origin == d && (r.origin_port is None
                    || r.origin_port == Some(port_text(port))) && forall|j: int|
                    0 <= j < k ==> !(rules[j].origin == d && (rules[j].origin_port is None
                        || rules[j].origin_port == Some(port_text(port)))),
            None => forall|j: int|
                0 <= j < rules.len() ==> !(rules[j].origin == d && (rules[j].origin_port is None
                    || rules[j].origin_port == Some(port_text(port)))),
        },
{
    match field_text(domain) {
        Some(d) => {
            lemma_match_from_first(rules, d, port_text(port), 0);
        },
        None => {},
    }
}

/// A rule that does not apply to a request (its host differs, or it names a
/// different port) has no effect on the rewrite: the rewrite with the list is
/// the rewrite with the list without that leading rule.
pub proof fn law_non_matching_first_rule_is_skipped(
    domain: Seq<u8>,
    port: Seq<u8>,
    rules: Seq<RuleView>,
    rewrite: bool,
)
    requires
        rules.len() > 0,
        field_text(domain) matches Some(d) ==> !(rules[0].origin == d && (rules[0].origin_port
            is None || rules[0].origin_port == Some(port_text(port)))),
    ensures
        rule_for(domain, port, rules) == rule_for(domain, port, rules.drop_first()),
        rewritten_host(domain, port, rewrite, rules) == rewritten_host(
            domain,
            port,
            rewrite,
            rules.drop_first(),
        ),
{
    match field_text(domain) {
        Some(d) => {
            lemma_match_from_shift(rules, d, port_text(port), 0);
        },
        None => {},
    }
}

} // verus!
