//! Runtime hook settings, driven by the UI Settings tab: the three hook
//! switches and the domain rewrite rules, with the rule-text parser.

use vstd::prelude::*;
use vstd::string::StrSliceExecFns;

use crate::text;
use crate::text::{chars_of, find_arrow, find_last_colon, trim_end_colons_range, trim_range};

verus! {

/// One rewrite rule: `origin[:port] -> target[:port]`.
#[derive(Debug, Clone, PartialEq, Eq)]
pub struct DomainRule {
    pub origin: String,
    pub origin_port: Option<String>,
    pub target: String,
    pub target_port: Option<String>,
}

/// What a [`DomainRule`] says, as character sequences.
pub struct RuleView {
    pub origin: Seq<char>,
    pub origin_port: Option<Seq<char>>,
    pub target: Seq<char>,
    pub target_port: Option<Seq<char>>,
}

/// The characters of an optional string.
pub open spec fn opt_chars(o: Option<String>) -> Option<Seq<char>> {
    match o {
        Some(s) => Some(s@),
        None => None,
    }
}

impl View for DomainRule {
    type V = RuleView;

    open spec fn view(&self) -> RuleView {
        RuleView {
            origin: self.origin@,
            origin_port: opt_chars(self.origin_port),
            target: self.target@,
            target_port: opt_chars(self.target_port),
        }
    }
}

/// The views of a sequence of rules.
pub open spec fn rule_views(rules: Seq<DomainRule>) -> Seq<RuleView> {
    rules.map_values(|r: DomainRule| r@)
}

/// The characters that end one rule in the rule text: `,`, newline and `;`.
pub open spec fn is_rule_separator(c: char) -> bool {
    c == ',' || c == '\n' || c == ';'
}

/// The parts of `s` between separators, as `str::split([',', '\n', ';'])`
/// yields them: `n` separators give `n + 1` parts, empty ones included.
pub open spec fn text_parts(s: Seq<char>) -> Seq<Seq<char>>
    decreases s.len(),
{
    if s.len() == 0 {
        seq![Seq::<char>::empty()]
    } else {
        let init = text_parts(s.drop_last());
        if is_rule_separator(s.last()) {
            init.push(Seq::<char>::empty())
        } else {
            init.update(init.len() - 1, init.last().push(s.last()))
        }
    }
}

/// `host[:port]` split at its last colon; a port is taken only when both the
/// host before it and the port after it are non-empty, otherwise the whole
/// text, without trailing colons, is the host. Empty text gives nothing.
pub open spec fn parse_host_spec(s: Seq<char>) -> Option<(Seq<char>, Option<Seq<char>>)> {
    if s.len() == 0 {
        None
    } else {
        match text::last_colon(s) {
            Some(k) => if 0 < k && k + 1 < s.len() {
                Some((s.take(k), Some(s.skip(k + 1))))
            } else {
                Some((text::trim_end_colons(s), None))
            },
            None => Some((text::trim_end_colons(s), None)),
        }
    }
}

/// The rule one part of the rule text describes: the trimmed part split at
/// its first `->`, each side trimmed and read as `host[:port]`.
pub open spec fn parse_rule_spec(part: Seq<char>) -> Option<RuleView> {
    let p = text::trim(part);
    match text::first_arrow(p) {
        None => None,
        Some(k) => match parse_host_spec(text::trim(p.take(k))) {
            None => None,
            Some(origin) => match parse_host_spec(text::trim(p.skip(k + 2))) {
                None => None,
                Some(target) => Some(
                    RuleView {
                        origin: origin.0,
                        origin_port: origin.1,
                        target: target.0,
                        target_port: target.1,
                    },
                ),
            },
        },
    }
}

/// The rules of a sequence of parts, in order, skipping parts that are no rule.
pub open spec fn rules_of_parts(parts: Seq<Seq<char>>) -> Seq<RuleView>
    decreases parts.len(),
{
    if parts.len() == 0 {
        Seq::empty()
    } else {
        rules_of_parts(parts.drop_last()) + match parse_rule_spec(parts.last()) {
            Some(r) => seq![r],
            None => Seq::empty(),
        }
    }
}

/// The rules a rule text describes.
pub open spec fn parse_rules_spec(text: Seq<char>) -> Seq<RuleView> {
    rules_of_parts(text_parts(text))
}

/// The ranges of a `host[:port]` found in `cs[lo..hi]`: the host range and,
/// when present, the port range.
fn host_range(cs: &Vec<char>, lo: usize, hi: usize) -> (r: Option<(usize, usize, Option<(usize, usize)>)>)
    requires
        lo <= hi <= cs@.len(),
    ensures
        match parse_host_spec(cs@.subrange(lo as int, hi as int)) {
            None => r is None,
            Some((host, port)) => match r {
                None => false,
                Some((a, b, port_range)) => {
                    &&& lo <= a <= b <= hi
                    &&& cs@.subrange(a as int, b as int) == host
                    &&& match (port, port_range) {
                        (None, None) => true,
                        (Some(p), Some((pa, pb))) => lo <= pa <= pb <= hi && cs@.subrange(
                            pa as int,
                            pb as int,
                        ) == p,
                        _ => false,
                    }
                },
            },
        },
{
    let ghost t = cs@.subrange(lo as int, hi as int);
    if lo == hi {
        return None;
    }
    match find_last_colon(cs, lo, hi) {
        Some(j) => {
            if j > lo && j + 1 < hi {
                assert(t.take(j - lo) =~= cs@.subrange(lo as int, j as int));
                assert(t.skip(j - lo + 1) =~= cs@.subrange(j + 1, hi as int));
                return Some((lo, j, Some((j + 1, hi))));
            }
        },
        None => {},
    }
    let e = trim_end_colons_range(cs, lo, hi);
    Some((lo, e, None))
}

/// The string `text[a..b]`, counted in chars.
fn substring(text: &str, a: usize, b: usize) -> (s: String)
    requires
        a <= b <= text@.len(),
    ensures
        s@ == text@.subrange(a as int, b as int),
{
    text.substring_char(a, b).to_owned()
}

/// Split `host[:port]` (port optional, last colon wins).
pub fn parse_host(s: &str) -> (r: Option<(String, Option<String>)>)
    ensures
        match parse_host_spec(s@) {
            None => r is None,
            Some((host, port)) => match r {
                Some((h, p)) => h@ == host && opt_chars(p) == port,
                None => false,
            },
        },
{
    let cs = chars_of(s);
    assert(cs@.subrange(0, cs@.len() as int) =~= cs@);
    match host_range(&cs, 0, cs.len()) {
        None => None,
        Some((a, b, port)) => {
            let host = substring(s, a, b);
            let port_string = match port {
                Some((pa, pb)) => Some(substring(s, pa, pb)),
                None => None,
            };
            Some((host, port_string))
        },
    }
}

/// The rule described by `text[lo..hi]` (one part of the rule text).
fn parse_part(text: &str, cs: &Vec<char>, lo: usize, hi: usize) -> (r: Option<DomainRule>)
    requires
        lo <= hi <= cs@.len(),
        cs@ == text@,
    ensures
        match parse_rule_spec(cs@.subrange(lo as int, hi as int)) {
            None => r is None,
            Some(v) => r is Some && r->0@ == v,
        },
{
    let ghost part = cs@.subrange(lo as int, hi as int);
    let (a, b) = trim_range(cs, lo, hi);
    let ghost p = cs@.subrange(a as int, b as int);
    let k = match find_arrow(cs, a, b) {
        Some(k) => k,
        None => return None,
    };
    assert(p.take(k - a) =~= cs@.subrange(a as int, k as int));
    assert(p.skip(k - a + 2) =~= cs@.subrange(k + 2, b as int));
    let (oa, ob) = trim_range(cs, a, k);
    let (ta, tb) = trim_range(cs, k + 2, b);
    let (oh_a, oh_b, oport) = match host_range(cs, oa, ob) {
        Some(h) => h,
        None => return None,
    };
    let (th_a, th_b, tport) = match host_range(cs, ta, tb) {
        Some(h) => h,
        None => return None,
    };
    let origin = substring(text, oh_a, oh_b);
    let origin_port = match oport {
        Some((pa, pb)) => Some(substring(text, pa, pb)),
        None => None,
    };
    let target = substring(text, th_a, th_b);
    let target_port = match tport {
        Some((pa, pb)) => Some(substring(text, pa, pb)),
        None => None,
    };
    Some(DomainRule { origin, origin_port, target, target_port })
}

/// Whether `c` ends one rule of the rule text.
pub fn is_rule_separator_char(c: char) -> (r: bool)
    ensures
        r == is_rule_separator(c),
{
    c == ',' || c == '\n' || c == ';'
}

/// Parse comma/newline/`;`-separated `origin[:port] -> target[:port]` rules.
pub fn parse_rules(text: &str) -> (out: Vec<DomainRule>)
    ensures
        rule_views(out@) == parse_rules_spec(text@),
{
    let cs = chars_of(text);
    let n = cs.len();
    let mut out: Vec<DomainRule> = Vec::new();
    let mut start: usize = 0;
    let mut i: usize = 0;
    let ghost mut done: Seq<Seq<char>> = Seq::empty();
    assert(cs@.take(0) =~= Seq::<char>::empty());
    assert(cs@.subrange(0, 0) =~= Seq::<char>::empty());
    assert(text_parts(Seq::<char>::empty()) =~= done.push(cs@.subrange(0, 0)));
    while i < n
        invariant
            start <= i <= n,
            n == cs@.len(),
            cs@ == text@,
            text_parts(cs@.take(i as int)) == done.push(cs@.subrange(start as int, i as int)),
            rule_views(out@) == rules_of_parts(done),
        decreases n - i,
    {
        let c = cs[i];
        assert(cs@.take(i + 1).drop_last() =~= cs@.take(i as int));
        assert(cs@.take(i + 1).last() == c);
        if is_rule_separator_char(c) {
            let r = parse_part(text, &cs, start, i);
            let ghost old_out = out@;
            match r {
                Some(rule) => {
                    out.push(rule);
                },
                None => {},
            }
            proof {
                let cur = cs@.subrange(start as int, i as int);
                let nd = done.push(cur);
                assert(nd.drop_last() =~= done);
                assert(rule_views(out@) =~= rule_views(old_out) + match parse_rule_spec(cur) {
                    Some(v) => seq![v],
                    None => Seq::empty(),
                });
                done = nd;
                assert(cs@.subrange(i + 1, i + 1) =~= Seq::<char>::empty());
            }
            start = i + 1;
        } else {
            proof {
                assert(cs@.subrange(start as int, i + 1) =~= cs@.subrange(
                    start as int,
                    i as int,
                ).push(c));
                assert(done.push(cs@.subrange(start as int, i as int)).update(
                    done.len() as int,
                    cs@.subrange(start as int, i + 1),
                ) =~= done.push(cs@.subrange(start as int, i + 1)));
            }
        }
        i = i + 1;
    }
    assert(cs@.take(n as int) =~= cs@);
    let last = parse_part(text, &cs, start, n);
    let ghost old_out = out@;
    match last {
        Some(rule) => {
            out.push(rule);
        },
        None => {},
    }
    proof {
        let cur = cs@.subrange(start as int, n as int);
        let nd = done.push(cur);
        assert(nd.drop_last() =~= done);
        assert(rule_views(out@) =~= rule_views(old_out) + match parse_rule_spec(cur) {
            Some(v) => seq![v],
            None => Seq::empty(),
        });
    }
    out
}

} // verus!

verus! {

/// The hook switches and the active domain rewrite rules.
pub struct HookSettings {
    /// Skip certificate verification (the certificate hook approves).
    pub skip_cert_verify: bool,
    /// Force every request to plain HTTP.
    pub force_http: bool,
    /// Apply the domain rewrite rules to HTTP requests.
    pub rewrite_domain: bool,
    /// The active rewrite rules, in the order they are tried.
    pub active_rules: Vec<DomainRule>,
}

impl HookSettings {
    /// The active rewrite rules.
    pub open spec fn active(&self) -> Seq<RuleView> {
        rule_views(self.active_rules@)
    }

    /// The settings a fresh process starts with: certificate checks skipped,
    /// HTTPS left alone, domain rewriting on, and no rules.
    pub fn new() -> (s: Self)
        ensures
            s.skip_cert_verify,
            !s.force_http,
            s.rewrite_domain,
            s.active() == Seq::<RuleView>::empty(),
    {
        let s = HookSettings {
            skip_cert_verify: true,
            force_http: false,
            rewrite_domain: true,
            active_rules: Vec::new(),
        };
        assert(rule_views(s.active_rules@) =~= Seq::<RuleView>::empty());
        s
    }
}

/// What `rules` promises: `out` holds the active rules, in order.
pub open spec fn rules_post(settings: HookSettings, out: Seq<DomainRule>) -> bool {
    rule_views(out) == settings.active()
}

/// What `set_rules` promises: the rules are replaced, the switches kept.
pub open spec fn set_rules_post(
    before: HookSettings,
    after: HookSettings,
    new_rules: Seq<DomainRule>,
) -> bool {
    &&& after.active() == rule_views(new_rules)
    &&& after.skip_cert_verify == before.skip_cert_verify
    &&& after.force_http == before.force_http
    &&& after.rewrite_domain == before.rewrite_domain
}

/// A copy of `r`.
pub fn copy_rule(r: &DomainRule) -> (c: DomainRule)
    ensures
        c@ == r@,
{
    let origin_port = match &r.origin_port {
        Some(p) => Some(p.clone()),
        None => None,
    };
    let target_port = match &r.target_port {
        Some(p) => Some(p.clone()),
        None => None,
    };
    DomainRule { origin: r.origin.clone(), origin_port, target: r.target.clone(), target_port }
}

/// Snapshot of the active rewrite rules.
pub fn rules(settings: &HookSettings) -> (out: Vec<DomainRule>)
    ensures
        rules_post(*settings, out@),
{
    let n = settings.active_rules.len();
    let mut out: Vec<DomainRule> = Vec::new();
    let mut i: usize = 0;
    while i < n
        invariant
            i <= n,
            n == settings.active_rules@.len(),
            out@.len() == i,
            rule_views(out@) == rule_views(settings.active_rules@.take(i as int)),
        decreases n - i,
    {
        let c = copy_rule(&settings.active_rules[i]);
        let ghost before = out@;
        out.push(c);
        proof {
            let want = rule_views(settings.active_rules@.take(i + 1));
            assert forall|j: int| 0 <= j < i + 1 implies rule_views(out@)[j] == want[j] by {
                assert(out@.len() == i + 1);
                assert(rule_views(out@)[j] == out@[j]@);
                assert(want[j] == settings.active_rules@.take(i + 1)[j]@);
                if j < i {
                    assert(out@[j] == before[j]);
                    assert(rule_views(before)[j] == before[j]@);
                    assert(rule_views(before)[j] == rule_views(
                        settings.active_rules@.take(i as int),
                    )[j]);
                } else {
                    assert(out@[j] == c);
                }
            }
            assert(rule_views(out@) =~= want);
        }
        i = i + 1;
    }
    assert(settings.active_rules@.take(n as int) =~= settings.active_rules@);
    out
}

/// Replace the active rewrite rules.
pub fn set_rules(settings: &mut HookSettings, new_rules: Vec<DomainRule>)
    ensures
        set_rules_post(*old(settings), *final(settings), new_rules@),
{
    settings.active_rules = new_rules;
}

/// Reading the rules back gives exactly the rules last stored, in order.
pub proof fn law_rules_returns_what_set_rules_stored(
    before: HookSettings,
    after: HookSettings,
    new_rules: Seq<DomainRule>,
    read: Seq<DomainRule>,
)
    requires
        set_rules_post(before, after, new_rules),
        rules_post(after, read),
    ensures
        rule_views(read) == rule_views(new_rules),
{
}

/// Every part list of a text has at least one part.
proof fn lemma_text_parts_nonempty(s: Seq<char>)
    ensures
        text_parts(s).len() >= 1,
    decreases s.len(),
{
    if s.len() > 0 {
        lemma_text_parts_nonempty(s.drop_last());
    }
}

/// Splitting `a`, a separator, then `b` gives the parts of `a` followed by
/// the parts of `b`.
proof fn lemma_text_parts_concat(a: Seq<char>, c: char, b: Seq<char>)
    requires
        is_rule_separator(c),
    ensures
        text_parts(a + seq![c] + b) == text_parts(a) + text_parts(b),
    decreases b.len(),
{
    let s = a + seq![c] + b;
    if b.len() == 0 {
        assert(s.drop_last() =~= a);
        assert(text_parts(s) =~= text_parts(a) + text_parts(b));
    } else {
        let b0 = b.drop_last();
        lemma_text_parts_concat(a, c, b0);
        lemma_text_parts_nonempty(b0);
        assert(s.drop_last() =~= a + seq![c] + b0);
        assert(s.last() == b.last());
        assert(text_parts(s) =~= text_parts(a) + text_parts(b));
    }
}

/// The rules of two part lists, one after the other.
proof fn lemma_rules_of_parts_concat(p: Seq<Seq<char>>, q: Seq<Seq<char>>)
    ensures
        rules_of_parts(p + q) == rules_of_parts(p) + rules_of_parts(q),
    decreases q.len(),
{
    if q.len() == 0 {
        assert(p + q =~= p);
        assert(rules_of_parts(p) + rules_of_parts(q) =~= rules_of_parts(p));
    } else {
        lemma_rules_of_parts_concat(p, q.drop_last());
        assert((p + q).drop_last() =~= p + q.drop_last());
        assert((p + q).last() == q.last());
        let tail = match parse_rule_spec(q.last()) {
            Some(r) => seq![r],
            None => Seq::<RuleView>::empty(),
        };
        assert(rules_of_parts(p) + rules_of_parts(q.drop_last()) + tail =~= rules_of_parts(p) + (
        rules_of_parts(q.drop_last()) + tail));
    }
}

/// Joining two rule texts with a separator joins their rules: the text
/// `a,b` (or `a;b`, or `a` newline `b`) describes the rules of `a` followed
/// by the rules of `b`.
pub proof fn law_parse_rules_concat(a: Seq<char>, c: char, b: Seq<char>)
    requires
        is_rule_separator(c),
    ensures
        parse_rules_spec(a + seq![c] + b) == parse_rules_spec(a) + parse_rules_spec(b),
{
    lemma_text_parts_concat(a, c, b);
    lemma_rules_of_parts_concat(text_parts(a), text_parts(b));
}

/// What a parsed `host[:port]` looks like: a port, when there is one, is
/// non-empty and holds no `:` (the last colon wins); without a port the
/// host does not end in `:`.
pub open spec fn well_split_host(host: Seq<char>, port: Option<Seq<char>>) -> bool {
    match port {
        Some(p) => p.len() > 0 && !p.contains(':') && host.len() > 0,
        None => host.len() > 0 ==> host.last() != ':',
    }
}

proof fn lemma_parse_host_well_split(s: Seq<char>)
    ensures
        parse_host_spec(s) matches Some((h, p)) ==> well_split_host(h, p),
{
    if s.len() > 0 {
        text::lemma_colon_before(s, s.len() as int);
        text::lemma_trim_end_colons(s);
        match text::last_colon(s) {
            Some(k) => {
                if 0 < k && k + 1 < s.len() {
                    let p = s.skip(k + 1);
                    assert forall|m: int| 0 <= m < p.len() implies p[m] != ':' by {
                        assert(p[m] == s[k + 1 + m]);
                    }
                }
            },
            None => {},
        }
    }
}

/// Every rule parsed from any text has well-split origin and target
/// `host[:port]` pairs.
pub proof fn law_parsed_rules_are_well_split(text: Seq<char>)
    ensures
        forall|i: int|
            0 <= i < parse_rules_spec(text).len() ==> {
                let r = #[trigger] parse_rules_spec(text)[i];
                well_split_host(r.origin, r.origin_port) && well_split_host(
                    r.target,
                    r.target_port,
                )
            },
{
    lemma_rules_of_parts_well_split(text_parts(text));
}

proof fn lemma_rules_of_parts_well_split(parts: Seq<Seq<char>>)
    ensures
        forall|i: int|
            0 <= i < rules_of_parts(parts).len() ==> {
                let r = #[trigger] rules_of_parts(parts)[i];
                well_split_host(r.origin, r.origin_port) && well_split_host(
                    r.target,
                    r.target_port,
                )
            },
    decreases parts.len(),
{
    if parts.len() > 0 {
        lemma_rules_of_parts_well_split(parts.drop_last());
        let p = text::trim(parts.last());
        match text::first_arrow(p) {
            Some(k) => {
                lemma_parse_host_well_split(text::trim(p.take(k)));
                lemma_parse_host_well_split(text::trim(p.skip(k + 2)));
            },
            None => {},
        }
    }
}

} // verus!

verus! {

/// A text without rule separators is one part.
proof fn lemma_text_parts_single(s: Seq<char>)
    requires
        forall|i: int| 0 <= i < s.len() ==> !is_rule_separator(s[i]),
    ensures
        text_parts(s) == seq![s],
    decreases s.len(),
{
    if s.len() == 0 {
        assert(s =~= Seq::<char>::empty());
    } else {
        let init = s.drop_last();
        assert forall|i: int| 0 <= i < init.len() implies !is_rule_separator(init[i]) by {
            assert(init[i] == s[i]);
        }
        assert(!is_rule_separator(s[s.len() - 1]));
        lemma_text_parts_single(init);
        assert(init.push(s.last()) =~= s);
        assert(seq![init].update(0, init.push(s.last())) =~= seq![s]);
    }
}

/// In `o -> t`, with no arrow inside `o`, the first arrow is the one after `o`.
proof fn lemma_arrow_after_origin(x: Seq<char>, o: Seq<char>, i: int)
    requires
        0 <= i <= o.len(),
        o.len() + 2 <= x.len(),
        x.take(o.len() as int) == o,
        x[o.len() as int] == '-',
        x[o.len() as int + 1] == '>',
        forall|k: int| !text::arrow_at(o, k),
    ensures
        text::arrow_from(x, i) == Some(o.len() as int),
    decreases o.len() - i,
{
    if i < o.len() {
        if i + 1 < o.len() {
            assert(x[i] == o[i] && x[i + 1] == o[i + 1]);
            assert(!text::arrow_at(o, i));
        }
        lemma_arrow_after_origin(x, o, i + 1);
    }
}

/// A text whose first and last chars are not whitespace is its own trim.
proof fn lemma_trim_keeps(s: Seq<char>)
    requires
        s.len() > 0,
        !text::is_white_space(s[0]),
        !text::is_white_space(s.last()),
    ensures
        text::trim(s) == s,
{
}

/// One rule text `o->t` gives exactly one rule, whose origin and target are
/// `o` and `t` read as `host[:port]` — whatever the two hosts are, equal or
/// not. Here `o` and `t` are non-empty, start and end with non-whitespace,
/// hold no rule separator, and `o` holds no `->`.
pub proof fn law_one_rule_per_arrow_part(o: Seq<char>, t: Seq<char>)
    requires
        o.len() > 0,
        t.len() > 0,
        !text::is_white_space(o[0]),
        !text::is_white_space(o.last()),
        !text::is_white_space(t[0]),
        !text::is_white_space(t.last()),
        forall|i: int| 0 <= i < o.len() ==> !is_rule_separator(o[i]),
        forall|i: int| 0 <= i < t.len() ==> !is_rule_separator(t[i]),
        forall|k: int| !text::arrow_at(o, k),
    ensures
        match (parse_host_spec(o), parse_host_spec(t)) {
            (Some(ho), Some(ht)) => parse_rules_spec(o + seq!['-', '>'] + t) == seq![
                RuleView { origin: ho.0, origin_port: ho.1, target: ht.0, target_port: ht.1 },
            ],
            _ => false,
        },
{
    let x = o + seq!['-', '>'] + t;
    let n = o.len() as int;
    assert forall|i: int| 0 <= i < x.len() implies !is_rule_separator(x[i]) by {
        if i < n {
            assert(x[i] == o[i]);
        } else if i >= n + 2 {
            assert(x[i] == t[i - n - 2]);
        }
    }
    lemma_text_parts_single(x);
    assert(seq![x].drop_last() =~= Seq::<Seq<char>>::empty());
    assert(x[0] == o[0]);
    assert(x.last() == t.last());
    lemma_trim_keeps(x);
    assert(x.take(n) =~= o);
    lemma_arrow_after_origin(x, o, 0);
    assert(x.skip(n + 2) =~= t);
    lemma_trim_keeps(o);
    lemma_trim_keeps(t);
    let rule = match (parse_host_spec(o), parse_host_spec(t)) {
        (Some(ho), Some(ht)) => RuleView {
            origin: ho.0,
            origin_port: ho.1,
            target: ht.0,
            target_port: ht.1,
        },
        _ => arbitrary(),
    };
    assert(parse_host_spec(o) is Some);
    assert(parse_host_spec(t) is Some);
    assert(text::trim(x) == x);
    assert(text::first_arrow(x) == Some(n));
    assert(text::trim(x.take(n)) == o);
    assert(text::trim(x.skip(n + 2)) == t);
    assert(parse_rule_spec(x) == Some(rule));
    assert(text_parts(x) == seq![x]);
    assert(rules_of_parts(seq![x]) == rules_of_parts(Seq::<Seq<char>>::empty()) + seq![rule]);
    assert(Seq::<RuleView>::empty() + seq![rule] =~= seq![rule]);
}

} // verus!
