//! The URL rule engine: evaluates a URL against the ordered rule list and
//! produces a decision with a full trace for explainability.

use vstd::prelude::*;
use crate::config::{has_key, opt_str, Config, ConfigModel, Rule, RuleModel, rules_view};
use crate::outside::{
    debug_str, glob_match, glob_matches, lowercase, GLOB_MAX_CHARS, parse_url, regex_compile_error, regex_error,
    regex_is_match, regex_match, str_debug, to_lowercase, url_parts,
};
use crate::text::{
    all_ascii, ascii_lower, ascii_lower_chars, chars_eq_str, chars_of, contains, contains_char,
    contains_seq, ends_with, eq_ignore_ascii_case, eq_ignore_case, is_prefix, is_suffix,
    push_all, push_str, slice_of, starts_with, string_of,
};

verus! {

broadcast use vstd::string::group_string_axioms;

/// Special rule target that swallows the URL without opening anything.
pub const TARGET_BLOCK: &'static str = "block";

pub open spec fn block_target() -> Seq<char> {
    seq!['b', 'l', 'o', 'c', 'k']
}

/// Special rule target marking tracker/shortener links: their redirects are
/// followed and the rules are evaluated again against the final URL.
pub const TARGET_RESOLVE: &'static str = "resolve";

pub open spec fn resolve_target() -> Seq<char> {
    seq!['r', 'e', 's', 'o', 'l', 'v', 'e']
}

/// The characters of `resolve`.
pub fn resolve_chars() -> (v: Vec<char>)
    ensures
        v@ == resolve_target(),
{
    let mut v = Vec::new();
    v.push('r');
    v.push('e');
    v.push('s');
    v.push('o');
    v.push('l');
    v.push('v');
    v.push('e');
    assert(v@ =~= resolve_target());
    v
}

/// The characters of `block`.
pub fn block_chars() -> (v: Vec<char>)
    ensures
        v@ == block_target(),
{
    let mut v = Vec::new();
    v.push('b');
    v.push('l');
    v.push('o');
    v.push('c');
    v.push('k');
    assert(v@ =~= block_target());
    v
}

/// The abstract content of an [`Outcome`].
pub ghost enum OutcomeModel {
    RuleMatched { rule: Seq<char>, target: Seq<char>, incognito: bool },
    Default { target: Seq<char> },
    Blocked { rule: Seq<char> },
    NoMatch,
}

/// What the engine decided to do with a URL.
#[derive(Debug, Clone, PartialEq)]
pub enum Outcome {
    /// A rule matched and names the browser to open.
    RuleMatched { rule: String, target: String, incognito: bool },
    /// No rule matched; the configured default browser is used.
    Default { target: String },
    /// A rule matched and blocked the URL.
    Blocked { rule: String },
    /// No rule matched and no usable default browser is configured.
    NoMatch,
}

impl View for Outcome {
    type V = OutcomeModel;

    open spec fn view(&self) -> OutcomeModel {
        match self {
            Outcome::RuleMatched { rule, target, incognito } => OutcomeModel::RuleMatched {
                rule: rule@,
                target: target@,
                incognito: *incognito,
            },
            Outcome::Default { target } => OutcomeModel::Default { target: target@ },
            Outcome::Blocked { rule } => OutcomeModel::Blocked { rule: rule@ },
            Outcome::NoMatch => OutcomeModel::NoMatch,
        }
    }
}

impl Outcome {
    /// A copy of this outcome.
    pub fn copy(&self) -> (r: Outcome)
        ensures
            r@ == self@,
    {
        match self {
            Outcome::RuleMatched { rule, target, incognito } => Outcome::RuleMatched {
                rule: rule.clone(),
                target: target.clone(),
                incognito: *incognito,
            },
            Outcome::Default { target } => Outcome::Default { target: target.clone() },
            Outcome::Blocked { rule } => Outcome::Blocked { rule: rule.clone() },
            Outcome::NoMatch => Outcome::NoMatch,
        }
    }
}

/// The abstract content of a [`RuleTrace`].
pub ghost struct TraceModel {
    pub name: Seq<char>,
    pub matched: bool,
    pub reason: Seq<char>,
}

/// Per-rule explanation of why it did or did not match.
#[derive(Debug, Clone, PartialEq)]
pub struct RuleTrace {
    pub name: String,
    pub matched: bool,
    pub reason: String,
}

impl View for RuleTrace {
    type V = TraceModel;

    open spec fn view(&self) -> TraceModel {
        TraceModel { name: self.name@, matched: self.matched, reason: self.reason@ }
    }
}

/// The views of a list of trace entries.
pub open spec fn traces_view(v: Vec<RuleTrace>) -> Seq<TraceModel> {
    v@.map_values(|t: RuleTrace| t@)
}

/// The abstract content of a [`Decision`].
pub ghost struct DecisionModel {
    pub url: Seq<char>,
    pub host: Option<Seq<char>>,
    pub scheme: Option<Seq<char>>,
    pub outcome: OutcomeModel,
    pub trace: Seq<TraceModel>,
    pub resolved_url: Option<Seq<char>>,
}

#[derive(Debug, Clone, PartialEq)]
pub struct Decision {
    pub url: String,
    pub host: Option<String>,
    pub scheme: Option<String>,
    pub outcome: Outcome,
    pub trace: Vec<RuleTrace>,
    /// Set when the link went through redirect resolution: the final URL
    /// the outcome was evaluated against (`url` stays the clicked link).
    pub resolved_url: Option<String>,
}

impl View for Decision {
    type V = DecisionModel;

    open spec fn view(&self) -> DecisionModel {
        DecisionModel {
            url: self.url@,
            host: opt_str(self.host),
            scheme: opt_str(self.scheme),
            outcome: self.outcome@,
            trace: traces_view(self.trace),
            resolved_url: opt_str(self.resolved_url),
        }
    }
}

// ---------------------------------------------------------------------------
// Host patterns
// ---------------------------------------------------------------------------

/// A lowercased pattern with an optional `*.` prefix removed.
pub open spec fn strip_wildcard(p: Seq<char>) -> Seq<char> {
    if is_prefix(seq!['*', '.'], p) {
        p.skip(2)
    } else {
        p
    }
}

/// The pattern holds a glob metacharacter.
pub open spec fn has_glob_meta(b: Seq<char>) -> bool {
    b.contains('*') || b.contains('?') || b.contains('[')
}

/// A glob pattern matches the text: it is within the length handed to the
/// glob library, and the glob compiled from it matches.
pub open spec fn glob_hit(pattern: Seq<char>, text: Seq<char>) -> bool {
    pattern.len() < GLOB_MAX_CHARS && glob_match(pattern, text)
}

/// Cookie-domain host matching: the lowercased pattern, with an optional
/// `*.` prefix stripped, matches the lowercased host itself and any
/// subdomain at any depth on a dot boundary; patterns holding other
/// wildcards fall back to glob matching.
pub open spec fn host_pattern_spec(pattern: Seq<char>, host: Seq<char>) -> bool {
    let h = lowercase(host);
    let base = strip_wildcard(lowercase(pattern));
    if has_glob_meta(base) {
        glob_hit(pattern, h) || glob_hit(base, h)
    } else {
        h == base || is_suffix(seq!['.'] + base, h)
    }
}

/// [`host_pattern_spec`] for ASCII text, where lowercasing is the ASCII
/// mapping.
pub open spec fn host_pattern_ascii(pattern: Seq<char>, host: Seq<char>) -> bool {
    let h = ascii_lower(host);
    let base = strip_wildcard(ascii_lower(pattern));
    if has_glob_meta(base) {
        glob_hit(pattern, h) || glob_hit(base, h)
    } else {
        h == base || is_suffix(seq!['.'] + base, h)
    }
}

/// Whether `pattern` matches `host` (cookie-domain semantics).
pub fn host_pattern_matches(pattern: &str, host: &str) -> (r: bool)
    ensures
        r == host_pattern_spec(pattern@, host@),
        all_ascii(pattern@) && all_ascii(host@) ==> r == host_pattern_ascii(pattern@, host@),
        is_prefix(seq!['*', '.'], pattern@) && !has_glob_meta(pattern@.skip(2)) ==> r
            == host_pattern_spec(pattern@.skip(2), host@),
{
    let h = to_lowercase(host);
    let mut star_dot: Vec<char> = Vec::new();
    star_dot.push('*');
    star_dot.push('.');
    assert(star_dot@ =~= seq!['*', '.']);
    let p = to_lowercase(pattern);
    let raw = chars_of(pattern);
    let base = if starts_with(&raw, &star_dot) {
        // `*.X` lowercases to `*.` followed by the lowercase of `X`.
        let rest = slice_of(&raw, 2, raw.len());
        assert(rest@ =~= pattern@.skip(2));
        let rest_s = string_of(&rest);
        let lr = to_lowercase(rest_s.as_str());
        proof {
            let l = lowercase(pattern@);
            assert(is_prefix(seq!['*', '.'], l)) by {
                assert((seq!['*', '.'] + lr@).subrange(0, 2) =~= seq!['*', '.']);
            }
            assert(l.skip(2) =~= lr@);
        }
        chars_of(lr.as_str())
    } else {
        let pc = chars_of(p.as_str());
        if starts_with(&pc, &star_dot) {
            slice_of(&pc, 2, pc.len())
        } else {
            pc
        }
    };
    proof {
        if is_prefix(seq!['*', '.'], pattern@) && !has_glob_meta(pattern@.skip(2)) {
            let lr = lowercase(pattern@.skip(2));
            assert(!has_glob_meta(lr));
            if is_prefix(seq!['*', '.'], lr) {
                assert(lr[0] == '*');
                assert(lr.contains('*'));
            }
            assert(strip_wildcard(lr) == lr);
        }
    }
    assert(base@ =~= strip_wildcard(lowercase(pattern@)));
    if contains_char(&base, '*') || contains_char(&base, '?') || contains_char(&base, '[') {
        let base_s = string_of(&base);
        (pattern.unicode_len() < GLOB_MAX_CHARS && glob_matches(pattern, h.as_str())) || (
        base.len() < GLOB_MAX_CHARS && glob_matches(base_s.as_str(), h.as_str()))
    } else {
        let hc = chars_of(h.as_str());
        let mut dotted: Vec<char> = Vec::new();
        dotted.push('.');
        push_all(&mut dotted, &base);
        assert(dotted@ =~= seq!['.'] + base@);
        crate::text::chars_eq(&hc, &base) || ends_with(&hc, &dotted)
    }
}

/// Cookie-domain law: for an ASCII pattern `X` without wildcards, `X` matches
/// exactly the host `X` itself and every subdomain of it (on a dot
/// boundary), and `*.X` is an equivalent alias of `X`.
pub proof fn lemma_cookie_domain(x: Seq<char>, host: Seq<char>)
    requires
        !has_glob_meta(ascii_lower(x)),
        !is_prefix(seq!['*', '.'], ascii_lower(x)),
    ensures
        host_pattern_ascii(x, host) == (ascii_lower(host) == ascii_lower(x) || is_suffix(
            seq!['.'] + ascii_lower(x),
            ascii_lower(host),
        )),
        host_pattern_ascii(seq!['*', '.'] + x, host) == host_pattern_ascii(x, host),
{
    let sx = seq!['*', '.'] + x;
    assert(ascii_lower(sx) =~= seq!['*', '.'] + ascii_lower(x));
    assert(ascii_lower(sx).subrange(0, 2) =~= seq!['*', '.']);
    assert(ascii_lower(sx).skip(2) =~= ascii_lower(x));
}

// ---------------------------------------------------------------------------
// Rule matching
// ---------------------------------------------------------------------------

/// `Some("x")` / `None`, as `Debug` writes an optional string.
pub open spec fn opt_debug(o: Option<Seq<char>>) -> Seq<char> {
    match o {
        Some(x) => "Some("@ + str_debug(x) + ")"@,
        None => "None"@,
    }
}

pub open spec fn scheme_reason(want: Seq<char>, scheme: Option<Seq<char>>) -> Seq<char> {
    "scheme "@ + str_debug(want) + " != "@ + opt_debug(scheme)
}

pub open spec fn host_reason(pat: Seq<char>, host: Option<Seq<char>>) -> Seq<char> {
    "host_glob "@ + str_debug(pat) + " did not match host "@ + opt_debug(host)
}

pub open spec fn contains_reason(needle: Seq<char>) -> Seq<char> {
    "url_contains "@ + str_debug(needle) + " not in url"@
}

pub open spec fn invalid_regex_reason(e: Seq<char>) -> Seq<char> {
    "invalid url_regex: "@ + e
}

pub open spec fn regex_reason(pat: Seq<char>) -> Seq<char> {
    "url_regex "@ + str_debug(pat) + " did not match url"@
}

pub open spec fn scheme_ok(rule: RuleModel, scheme: Option<Seq<char>>) -> bool {
    rule.scheme is Some ==> (scheme is Some && eq_ignore_ascii_case(scheme->0, rule.scheme->0))
}

pub open spec fn host_ok(rule: RuleModel, host: Option<Seq<char>>) -> bool {
    rule.host_glob is Some ==> (host is Some && host_pattern_spec(rule.host_glob->0, host->0))
}

pub open spec fn contains_ok(rule: RuleModel, url: Seq<char>) -> bool {
    rule.url_contains is Some ==> contains_seq(lowercase(url), lowercase(rule.url_contains->0))
}

pub open spec fn regex_ok(rule: RuleModel, url: Seq<char>) -> bool {
    rule.url_regex is Some ==> (regex_compile_error(rule.url_regex->0) is None && regex_match(
        rule.url_regex->0,
        url,
    ))
}

/// `None` when every specified constraint of the rule holds (AND), else
/// the reason of the first that fails, checked in the order scheme, host,
/// text, regex.
pub open spec fn rule_match_spec(
    rule: RuleModel,
    url: Seq<char>,
    host: Option<Seq<char>>,
    scheme: Option<Seq<char>>,
) -> Option<Seq<char>> {
    if !scheme_ok(rule, scheme) {
        Some(scheme_reason(rule.scheme->0, scheme))
    } else if !host_ok(rule, host) {
        Some(host_reason(rule.host_glob->0, host))
    } else if !contains_ok(rule, url) {
        Some(contains_reason(rule.url_contains->0))
    } else if rule.url_regex is Some && regex_compile_error(rule.url_regex->0) is Some {
        Some(invalid_regex_reason(regex_compile_error(rule.url_regex->0)->0))
    } else if !regex_ok(rule, url) {
        Some(regex_reason(rule.url_regex->0))
    } else {
        None
    }
}

/// A rule matches exactly when all of its constraints hold; a rule with no
/// constraints matches every URL.
pub proof fn lemma_constraints_are_anded(
    rule: RuleModel,
    url: Seq<char>,
    host: Option<Seq<char>>,
    scheme: Option<Seq<char>>,
)
    ensures
        rule_match_spec(rule, url, host, scheme) is None <==> (scheme_ok(rule, scheme) && host_ok(
            rule,
            host,
        ) && contains_ok(rule, url) && regex_ok(rule, url)),
        (rule.scheme is None && rule.host_glob is None && rule.url_contains is None
            && rule.url_regex is None) ==> rule_match_spec(rule, url, host, scheme) is None,
{
}

/// The debug form of an optional string.
fn opt_debug_string(o: &Option<String>) -> (r: Vec<char>)
    ensures
        r@ == opt_debug(opt_str(*o)),
{
    match o {
        Some(x) => {
            let mut v = chars_of("Some(");
            let d = debug_str(x.as_str());
            push_str(&mut v, d.as_str());
            push_str(&mut v, ")");
            v
        },
        None => chars_of("None"),
    }
}

/// Checks one rule against the URL: `None` when it matches, else why not.
pub fn matches_rule(rule: &Rule, url: &str, host: &Option<String>, scheme: &Option<String>) -> (r:
    Option<String>)
    ensures
        opt_str(r) == rule_match_spec(rule@, url@, opt_str(*host), opt_str(*scheme)),
{
    if let Some(want) = &rule.scheme {
        let ok = match scheme {
            Some(s) => {
                let sc = chars_of(s.as_str());
                let wc = chars_of(want.as_str());
                eq_ignore_case(&sc, &wc)
            },
            None => false,
        };
        if !ok {
            let mut v = chars_of("scheme ");
            let d = debug_str(want.as_str());
            push_str(&mut v, d.as_str());
            push_str(&mut v, " != ");
            let od = opt_debug_string(scheme);
            push_all(&mut v, &od);
            return Some(string_of(&v));
        }
    }
    if let Some(pat) = &rule.host_glob {
        let ok = match host {
            Some(h) => host_pattern_matches(pat.as_str(), h.as_str()),
            None => false,
        };
        if !ok {
            let mut v = chars_of("host_glob ");
            let d = debug_str(pat.as_str());
            push_str(&mut v, d.as_str());
            push_str(&mut v, " did not match host ");
            let od = opt_debug_string(host);
            push_all(&mut v, &od);
            return Some(string_of(&v));
        }
    }
    if let Some(needle) = &rule.url_contains {
        let lu = to_lowercase(url);
        let ln = to_lowercase(needle.as_str());
        let uc = chars_of(lu.as_str());
        let nc = chars_of(ln.as_str());
        if !contains(&uc, &nc) {
            let mut v = chars_of("url_contains ");
            let d = debug_str(needle.as_str());
            push_str(&mut v, d.as_str());
            push_str(&mut v, " not in url");
            return Some(string_of(&v));
        }
    }
    if let Some(pat) = &rule.url_regex {
        match regex_error(pat.as_str()) {
            Some(e) => {
                let mut v = chars_of("invalid url_regex: ");
                push_str(&mut v, e.as_str());
                return Some(string_of(&v));
            },
            None => {
                if !regex_is_match(pat.as_str(), url) {
                    let mut v = chars_of("url_regex ");
                    let d = debug_str(pat.as_str());
                    push_str(&mut v, d.as_str());
                    push_str(&mut v, " did not match url");
                    return Some(string_of(&v));
                }
            },
        }
    }
    None
}

// ---------------------------------------------------------------------------
// Evaluation
// ---------------------------------------------------------------------------

pub open spec fn trace_of(rule: RuleModel, matched: bool, reason: Seq<char>) -> TraceModel {
    TraceModel { name: rule.name, matched, reason }
}

/// The outcome when rule `rule` is the one that matched.
pub open spec fn matched_outcome(rule: RuleModel) -> OutcomeModel {
    if rule.target == block_target() {
        OutcomeModel::Blocked { rule: rule.name }
    } else {
        OutcomeModel::RuleMatched { rule: rule.name, target: rule.target, incognito: rule.incognito }
    }
}

/// The outcome when no rule matched.
pub open spec fn default_outcome(cfg: ConfigModel) -> OutcomeModel {
    match cfg.default_browser {
        Some(t) => if has_key(cfg.browsers, t) {
            OutcomeModel::Default { target: t }
        } else {
            OutcomeModel::NoMatch
        },
        None => OutcomeModel::NoMatch,
    }
}

/// Rules tried in order: the trace entries of the rules looked at, and the
/// outcome of the first enabled rule that matches, if any.
pub open spec fn eval_rules(
    rules: Seq<RuleModel>,
    url: Seq<char>,
    host: Option<Seq<char>>,
    scheme: Option<Seq<char>>,
) -> (Seq<TraceModel>, Option<OutcomeModel>)
    decreases rules.len(),
{
    if rules.len() == 0 {
        (seq![], None)
    } else {
        let rule = rules[0];
        let rest = eval_rules(rules.drop_first(), url, host, scheme);
        if !rule.enabled {
            (seq![trace_of(rule, false, "disabled"@)] + rest.0, rest.1)
        } else {
            match rule_match_spec(rule, url, host, scheme) {
                None => (seq![trace_of(rule, true, "matched"@)], Some(matched_outcome(rule))),
                Some(reason) => (seq![trace_of(rule, false, reason)] + rest.0, rest.1),
            }
        }
    }
}

/// The host of a parsed URL, lowercased.
pub open spec fn url_host(url: Seq<char>) -> Option<Seq<char>> {
    match url_parts(url) {
        Some((Some(h), _)) => Some(lowercase(h)),
        _ => None,
    }
}

/// The scheme of a parsed URL, ASCII-lowercased.
pub open spec fn url_scheme(url: Seq<char>) -> Option<Seq<char>> {
    match url_parts(url) {
        Some((_, s)) => Some(ascii_lower(s)),
        None => None,
    }
}

/// The decision for `url` under `cfg`.
pub open spec fn evaluate_spec(cfg: ConfigModel, url: Seq<char>) -> DecisionModel {
    let host = url_host(url);
    let scheme = url_scheme(url);
    let e = eval_rules(cfg.rules, url, host, scheme);
    DecisionModel {
        url,
        host,
        scheme,
        outcome: match e.1 {
            Some(o) => o,
            None => default_outcome(cfg),
        },
        trace: e.0,
        resolved_url: None,
    }
}

/// The rule is enabled and all its constraints hold.
pub open spec fn fires(
    rule: RuleModel,
    url: Seq<char>,
    host: Option<Seq<char>>,
    scheme: Option<Seq<char>>,
) -> bool {
    rule.enabled && rule_match_spec(rule, url, host, scheme) is None
}

/// A trace entry explains its rule: same name, matched exactly when the
/// rule fires, `disabled` for a disabled rule, else the failing
/// constraint's reason.
pub open spec fn explains(
    rule: RuleModel,
    t: TraceModel,
    url: Seq<char>,
    host: Option<Seq<char>>,
    scheme: Option<Seq<char>>,
) -> bool {
    &&& t.name == rule.name
    &&& t.matched == fires(rule, url, host, scheme)
    &&& !rule.enabled ==> t.reason == "disabled"@
    &&& fires(rule, url, host, scheme) ==> t.reason == "matched"@
    &&& (rule.enabled && !fires(rule, url, host, scheme)) ==> t.reason == rule_match_spec(
        rule,
        url,
        host,
        scheme,
    )->0
}

proof fn lemma_eval_rules(
    rules: Seq<RuleModel>,
    url: Seq<char>,
    host: Option<Seq<char>>,
    scheme: Option<Seq<char>>,
)
    ensures
        eval_rules(rules, url, host, scheme).0.len() <= rules.len(),
        forall|i: int|
            0 <= i < eval_rules(rules, url, host, scheme).0.len() ==> explains(
                rules[i],
                #[trigger] eval_rules(rules, url, host, scheme).0[i],
                url,
                host,
                scheme,
            ),
        forall|i: int|
            0 <= i < rules.len() && #[trigger] fires(rules[i], url, host, scheme) && (forall|j: int|
                0 <= j < i ==> !fires(rules[j], url, host, scheme)) ==> eval_rules(
                rules,
                url,
                host,
                scheme,
            ).0.len() == i + 1 && eval_rules(rules, url, host, scheme).1 == Some(
                matched_outcome(rules[i]),
            ),
        (forall|i: int| 0 <= i < rules.len() ==> !fires(#[trigger] rules[i], url, host, scheme))
            ==> eval_rules(rules, url, host, scheme).0.len() == rules.len() && eval_rules(
            rules,
            url,
            host,
            scheme,
        ).1 is None,
    decreases rules.len(),
{
    if rules.len() > 0 {
        let rest = rules.drop_first();
        lemma_eval_rules(rest, url, host, scheme);
        let e = eval_rules(rules, url, host, scheme);
        let er = eval_rules(rest, url, host, scheme);
        assert forall|i: int| 0 <= i < e.0.len() implies explains(
            rules[i],
            #[trigger] e.0[i],
            url,
            host,
            scheme,
        ) by {
            if i > 0 {
                assert(e.0[i] == er.0[i - 1]);
                assert(rules[i] == rest[i - 1]);
            }
        }
        assert forall|i: int|
            0 <= i < rules.len() && #[trigger] fires(rules[i], url, host, scheme) && (forall|j: int|
                0 <= j < i ==> !fires(rules[j], url, host, scheme)) implies e.0.len() == i + 1
            && e.1 == Some(matched_outcome(rules[i])) by {
            if i > 0 {
                assert(!fires(rules[0], url, host, scheme));
                assert(rest[i - 1] == rules[i]);
                assert forall|j: int| 0 <= j < i - 1 implies !fires(rest[j], url, host, scheme) by {
                    assert(rest[j] == rules[j + 1]);
                }
                assert(fires(rest[i - 1], url, host, scheme));
            }
        }
        if forall|i: int| 0 <= i < rules.len() ==> !fires(#[trigger] rules[i], url, host, scheme) {
            assert(!fires(rules[0], url, host, scheme));
            assert forall|i: int| 0 <= i < rest.len() implies !fires(
                #[trigger] rest[i],
                url,
                host,
                scheme,
            ) by {
                assert(rest[i] == rules[i + 1]);
            }
        }
    }
}

/// First match wins: the first enabled rule whose constraints all hold
/// decides the outcome (its browser, or a block), and the trace explains
/// exactly the rules up to it, disabled rules included; when no rule fires,
/// every rule is traced and the configured default browser is used when it
/// is defined, else there is no match.
pub proof fn lemma_first_match_wins(cfg: ConfigModel, url: Seq<char>)
    ensures
        ({
            let d = evaluate_spec(cfg, url);
            &&& d.trace.len() <= cfg.rules.len()
            &&& forall|i: int|
                0 <= i < d.trace.len() ==> explains(
                    cfg.rules[i],
                    #[trigger] d.trace[i],
                    url,
                    d.host,
                    d.scheme,
                )
            &&& forall|i: int|
                0 <= i < cfg.rules.len() && #[trigger] fires(cfg.rules[i], url, d.host, d.scheme)
                    && (forall|j: int|
                    0 <= j < i ==> !fires(cfg.rules[j], url, d.host, d.scheme)) ==> d.trace.len()
                    == i + 1 && d.outcome == matched_outcome(cfg.rules[i])
            &&& (forall|i: int|
                0 <= i < cfg.rules.len() ==> !fires(#[trigger] cfg.rules[i], url, d.host, d.scheme))
                ==> d.trace.len() == cfg.rules.len() && d.outcome == default_outcome(cfg)
        }),
{
    lemma_eval_rules(cfg.rules, url, url_host(url), url_scheme(url));
}

/// A trace entry for `rule`.
pub fn traced(rule: &Rule, matched: bool, reason: String) -> (r: RuleTrace)
    ensures
        r@ == trace_of(rule@, matched, reason@),
{
    RuleTrace { name: rule.name.clone(), matched, reason }
}

/// The outcome when `rule` is the one that matched.
fn outcome_of(rule: &Rule) -> (r: Outcome)
    ensures
        r@ == matched_outcome(rule@),
{
    let t = chars_of(rule.target.as_str());
    let b = block_chars();
    if crate::text::chars_eq(&t, &b) {
        Outcome::Blocked { rule: rule.name.clone() }
    } else {
        Outcome::RuleMatched {
            rule: rule.name.clone(),
            target: rule.target.clone(),
            incognito: rule.incognito,
        }
    }
}

/// The outcome when no rule matched: the configured default browser when
/// it is defined, else no match.
pub fn default_outcome_of(cfg: &Config) -> (r: Outcome)
    ensures
        r@ == default_outcome(cfg@),
{
    match &cfg.default_browser {
        Some(t) => if cfg.browsers.contains_key(t.as_str()) {
            Outcome::Default { target: t.clone() }
        } else {
            Outcome::NoMatch
        },
        None => Outcome::NoMatch,
    }
}

/// The lowercased host and the ASCII-lowercased scheme of a URL.
pub fn url_host_and_scheme(url: &str) -> (r: (Option<String>, Option<String>))
    ensures
        opt_str(r.0) == url_host(url@),
        opt_str(r.1) == url_scheme(url@),
{
    match parse_url(url) {
        Some((h, s)) => {
            let host = match h {
                Some(x) => Some(to_lowercase(x.as_str())),
                None => None,
            };
            let sc = chars_of(s.as_str());
            let ls = ascii_lower_chars(&sc);
            (host, Some(string_of(&ls)))
        },
        None => (None, None),
    }
}

/// Evaluates `raw_url` against the rules in order; the first enabled rule
/// whose constraints all hold decides, else the default browser.
pub fn evaluate(cfg: &Config, raw_url: &str) -> (d: Decision)
    ensures
        d@ == evaluate_spec(cfg@, raw_url@),
{
    let (host, scheme) = url_host_and_scheme(raw_url);
    let ghost hv = opt_str(host);
    let ghost sv = opt_str(scheme);
    let ghost rules = rules_view(cfg.rules);
    let mut trace: Vec<RuleTrace> = Vec::new();
    let mut i: usize = 0;
    assert(rules.skip(0) =~= rules);
    assert(traces_view(trace) + eval_rules(rules, raw_url@, hv, sv).0 =~= eval_rules(
        rules,
        raw_url@,
        hv,
        sv,
    ).0);
    while i < cfg.rules.len()
        invariant
            i <= cfg.rules@.len(),
            rules == rules_view(cfg.rules),
            hv == opt_str(host),
            sv == opt_str(scheme),
            hv == url_host(raw_url@),
            sv == url_scheme(raw_url@),
            eval_rules(rules, raw_url@, hv, sv).0 == traces_view(trace) + eval_rules(
                rules.skip(i as int),
                raw_url@,
                hv,
                sv,
            ).0,
            eval_rules(rules, raw_url@, hv, sv).1 == eval_rules(
                rules.skip(i as int),
                raw_url@,
                hv,
                sv,
            ).1,
        decreases cfg.rules@.len() - i,
    {
        let rule = &cfg.rules[i];
        let ghost rest = rules.skip(i as int);
        assert(rest[0] == rule@);
        assert(rest.drop_first() =~= rules.skip(i + 1));
        let ghost prev = traces_view(trace);
        if !rule.enabled {
            let t = traced(rule, false, owned_str("disabled"));
            trace.push(t);
            assert(traces_view(trace) =~= prev.push(t@));
        } else {
            match matches_rule(rule, raw_url, &host, &scheme) {
                None => {
                    let t = traced(rule, true, owned_str("matched"));
                    trace.push(t);
                    assert(traces_view(trace) =~= prev + seq![t@]);
                    assert(eval_rules(rest, raw_url@, hv, sv) == (
                        seq![t@],
                        Some(matched_outcome(rule@)),
                    ));
                    let o = outcome_of(rule);
                    assert(eval_rules(rules, raw_url@, hv, sv).0 == traces_view(trace));
                    let d = Decision {
                        url: owned_str(raw_url),
                        host,
                        scheme,
                        outcome: o,
                        trace,
                        resolved_url: None,
                    };
                    return d;
                },
                Some(reason) => {
                    let t = traced(rule, false, reason);
                    trace.push(t);
                    assert(traces_view(trace) =~= prev.push(t@));
                },
            }
        }
        i = i + 1;
        assert(eval_rules(rules, raw_url@, hv, sv).0 =~= traces_view(trace) + eval_rules(
            rules.skip(i as int),
            raw_url@,
            hv,
            sv,
        ).0);
    }
    assert(rules.skip(i as int) =~= Seq::<RuleModel>::empty());
    assert(traces_view(trace) + Seq::<TraceModel>::empty() =~= traces_view(trace));
    Decision {
        url: owned_str(raw_url),
        host,
        scheme,
        outcome: default_outcome_of(cfg),
        trace,
        resolved_url: None,
    }
}

/// A fresh `String` holding `s`.
fn owned_str(s: &str) -> (r: String)
    ensures
        r@ == s@,
{
    crate::text::owned(s)
}

/// What each matcher of a rule demands, said directly: a rule matches a URL
/// exactly when its scheme (if set) equals the URL's scheme ignoring ASCII
/// case, its host pattern (if set) matches the URL's host, the lowercased
/// URL contains its lowercased text (if set), and its regex (if set)
/// compiles and matches the URL. So a rule whose only matcher is the scheme
/// `http` never fires on an `https` URL.
pub proof fn lemma_matchers_hold(
    rule: RuleModel,
    url: Seq<char>,
    host: Option<Seq<char>>,
    scheme: Option<Seq<char>>,
)
    ensures
        rule_match_spec(rule, url, host, scheme) is None <==> {
            &&& rule.scheme is Some ==> (scheme is Some && ascii_lower(scheme->0) == ascii_lower(
                rule.scheme->0,
            ))
            &&& rule.host_glob is Some ==> (host is Some && host_pattern_spec(
                rule.host_glob->0,
                host->0,
            ))
            &&& rule.url_contains is Some ==> contains_seq(
                lowercase(url),
                lowercase(rule.url_contains->0),
            )
            &&& rule.url_regex is Some ==> (regex_compile_error(rule.url_regex->0) is None
                && regex_match(rule.url_regex->0, url))
        },
{
}

} // verus!
