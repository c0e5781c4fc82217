//! Configuration validation: human-readable warnings for problems that do
//! not prevent saving.

use vstd::prelude::*;
use crate::config::{has_key, strs, BrowserModel, Config, ConfigModel, Rule, RuleModel, rules_view};
use crate::engine::{block_chars, block_target, resolve_chars, resolve_target};
use crate::outside::{debug_str, glob_error, glob_parse_error, regex_compile_error, regex_error, str_debug};
use crate::text::{chars_eq, chars_of, decimal, decimal_chars, push_all, push_str, string_of};

verus! {

broadcast use vstd::string::group_string_axioms;

pub open spec fn unknown_target_warning(i: nat, rule: RuleModel) -> Seq<char> {
    "rule["@ + decimal(i) + "] "@ + str_debug(rule.name) + " targets unknown browser "@ + str_debug(
        rule.target,
    )
}

pub open spec fn invalid_glob_warning(rule: RuleModel, pat: Seq<char>, e: Seq<char>) -> Seq<char> {
    "rule "@ + str_debug(rule.name) + " has invalid host_glob "@ + str_debug(pat) + ": "@ + e
}

pub open spec fn invalid_regex_warning(rule: RuleModel, pat: Seq<char>) -> Seq<char> {
    "rule "@ + str_debug(rule.name) + " has invalid url_regex "@ + str_debug(pat)
}

pub open spec fn no_matcher_warning(rule: RuleModel) -> Seq<char> {
    "rule "@ + str_debug(rule.name) + " has no matcher and will match every URL"@
}

/// The warnings for rule number `i`: an unknown target, an invalid host
/// glob, an invalid regex, no matcher at all — in that order.
pub open spec fn rule_warnings(
    i: nat,
    rule: RuleModel,
    browsers: Seq<(Seq<char>, BrowserModel)>,
) -> Seq<Seq<char>> {
    (if rule.target != block_target() && rule.target != resolve_target() && !has_key(
        browsers,
        rule.target,
    ) {
        seq![unknown_target_warning(i, rule)]
    } else {
        seq![]
    }) + (match rule.host_glob {
        Some(p) => match glob_parse_error(p) {
            Some(e) => seq![invalid_glob_warning(rule, p, e)],
            None => seq![],
        },
        None => seq![],
    }) + (match rule.url_regex {
        Some(p) => if regex_compile_error(p) is Some {
            seq![invalid_regex_warning(rule, p)]
        } else {
            seq![]
        },
        None => seq![],
    }) + (if rule.host_glob is None && rule.url_contains is None && rule.url_regex is None
        && rule.scheme is None {
        seq![no_matcher_warning(rule)]
    } else {
        seq![]
    })
}

/// The warnings of all rules, in rule order.
pub open spec fn rules_warnings(
    rules: Seq<RuleModel>,
    browsers: Seq<(Seq<char>, BrowserModel)>,
) -> Seq<Seq<char>>
    decreases rules.len(),
{
    if rules.len() == 0 {
        seq![]
    } else {
        rules_warnings(rules.drop_last(), browsers) + rule_warnings(
            (rules.len() - 1) as nat,
            rules.last(),
            browsers,
        )
    }
}

/// All warnings for a configuration: version, then each rule, then the
/// default browser, then an empty browser table.
pub open spec fn validate_spec(cfg: ConfigModel) -> Seq<Seq<char>> {
    (if cfg.version != 1 {
        seq!["config version is "@ + decimal(cfg.version as nat) + ", expected 1"@]
    } else {
        seq![]
    }) + rules_warnings(cfg.rules, cfg.browsers) + (match cfg.default_browser {
        Some(d) => if !has_key(cfg.browsers, d) {
            seq!["default_browser "@ + str_debug(d) + " is not defined in [browsers]"@]
        } else {
            seq![]
        },
        None => seq![],
    }) + (if cfg.browsers.len() == 0 {
        seq!["no browsers configured; add one on the Browsers page"@]
    } else {
        seq![]
    })
}

/// Appends the line `v` to `out`.
fn push_line(out: &mut Vec<String>, v: &Vec<char>)
    ensures
        strs(*final(out)) == strs(*old(out)).push(v@),
{
    let ghost prev = strs(*out);
    let s = string_of(v);
    out.push(s);
    assert(strs(*out) =~= prev.push(v@));
}

/// The warnings for rule number `i`.
fn warn_rule(out: &mut Vec<String>, i: usize, rule: &Rule, cfg: &Config)
    ensures
        strs(*final(out)) == strs(*old(out)) + rule_warnings(i as nat, rule@, cfg.browsers@),
{
    let ghost start = strs(*out);
    let t = chars_of(rule.target.as_str());
    let b = block_chars();
    let rs = resolve_chars();
    let ghost w1: Seq<Seq<char>> = if rule@.target != block_target() && rule@.target
        != resolve_target() && !has_key(cfg.browsers@, rule@.target) {
        seq![unknown_target_warning(i as nat, rule@)]
    } else {
        seq![]
    };
    if !chars_eq(&t, &b) && !chars_eq(&t, &rs) && !cfg.browsers.contains_key(rule.target.as_str()) {
        let mut v = chars_of("rule[");
        let d = decimal_chars(i as u64);
        push_all(&mut v, &d);
        push_str(&mut v, "] ");
        let n = debug_str(rule.name.as_str());
        push_str(&mut v, n.as_str());
        push_str(&mut v, " targets unknown browser ");
        let tg = debug_str(rule.target.as_str());
        push_str(&mut v, tg.as_str());
        push_line(out, &v);
    }
    assert(strs(*out) =~= start + w1);
    let ghost s1 = strs(*out);
    let ghost w2: Seq<Seq<char>> = match rule@.host_glob {
        Some(p) => match glob_parse_error(p) {
            Some(e) => seq![invalid_glob_warning(rule@, p, e)],
            None => seq![],
        },
        None => seq![],
    };
    if let Some(p) = &rule.host_glob {
        if let Some(e) = glob_error(p.as_str()) {
            let mut v = chars_of("rule ");
            let n = debug_str(rule.name.as_str());
            push_str(&mut v, n.as_str());
            push_str(&mut v, " has invalid host_glob ");
            let pd = debug_str(p.as_str());
            push_str(&mut v, pd.as_str());
            push_str(&mut v, ": ");
            push_str(&mut v, e.as_str());
            push_line(out, &v);
        }
    }
    assert(strs(*out) =~= s1 + w2);
    let ghost s2 = strs(*out);
    let ghost w3: Seq<Seq<char>> = match rule@.url_regex {
        Some(p) => if regex_compile_error(p) is Some {
            seq![invalid_regex_warning(rule@, p)]
        } else {
            seq![]
        },
        None => seq![],
    };
    if let Some(p) = &rule.url_regex {
        if regex_error(p.as_str()).is_some() {
            let mut v = chars_of("rule ");
            let n = debug_str(rule.name.as_str());
            push_str(&mut v, n.as_str());
            push_str(&mut v, " has invalid url_regex ");
            let pd = debug_str(p.as_str());
            push_str(&mut v, pd.as_str());
            push_line(out, &v);
        }
    }
    assert(strs(*out) =~= s2 + w3);
    let ghost s3 = strs(*out);
    let ghost w4: Seq<Seq<char>> = if rule@.host_glob is None && rule@.url_contains is None
        && rule@.url_regex is None && rule@.scheme is None {
        seq![no_matcher_warning(rule@)]
    } else {
        seq![]
    };
    if rule.host_glob.is_none() && rule.url_contains.is_none() && rule.url_regex.is_none()
        && rule.scheme.is_none() {
        let mut v = chars_of("rule ");
        let n = debug_str(rule.name.as_str());
        push_str(&mut v, n.as_str());
        push_str(&mut v, " has no matcher and will match every URL");
        push_line(out, &v);
    }
    assert(strs(*out) =~= s3 + w4);
    assert(rule_warnings(i as nat, rule@, cfg.browsers@) =~= w1 + w2 + w3 + w4);
}

/// Human-readable warnings for problems that do not prevent saving.
pub fn validate(cfg: &Config) -> (r: Vec<String>)
    ensures
        strs(r) == validate_spec(cfg@),
{
    let mut out: Vec<String> = Vec::new();
    assert(strs(out) =~= Seq::<Seq<char>>::empty());
    if cfg.version != 1 {
        let mut v = chars_of("config version is ");
        let d = decimal_chars(cfg.version as u64);
        push_all(&mut v, &d);
        push_str(&mut v, ", expected 1");
        push_line(&mut out, &v);
    }
    let ghost s0 = strs(out);
    let ghost rules = rules_view(cfg.rules);
    let mut i: usize = 0;
    while i < cfg.rules.len()
        invariant
            i <= cfg.rules@.len(),
            rules == rules_view(cfg.rules),
            strs(out) == s0 + rules_warnings(rules.take(i as int), cfg.browsers@),
        decreases cfg.rules@.len() - i,
    {
        let ghost before = strs(out);
        warn_rule(&mut out, i, &cfg.rules[i], cfg);
        assert(rules.take(i + 1).drop_last() =~= rules.take(i as int));
        assert(rules.take(i + 1).last() == cfg.rules@[i as int]@);
        i = i + 1;
        assert(strs(out) =~= s0 + rules_warnings(rules.take(i as int), cfg.browsers@));
    }
    assert(rules.take(i as int) =~= rules);
    let ghost s1 = strs(out);
    if let Some(d) = &cfg.default_browser {
        if !cfg.browsers.contains_key(d.as_str()) {
            let mut v = chars_of("default_browser ");
            let dd = debug_str(d.as_str());
            push_str(&mut v, dd.as_str());
            push_str(&mut v, " is not defined in [browsers]");
            push_line(&mut out, &v);
        }
    }
    let ghost s2 = strs(out);
    if cfg.browsers.is_empty() {
        let v = chars_of("no browsers configured; add one on the Browsers page");
        push_line(&mut out, &v);
    }
    assert(strs(out) =~= validate_spec(cfg@));
    out
}

/// The rule names a browser of the table, or one of the special targets
/// `block` and `resolve`.
pub open spec fn target_known(rule: RuleModel, browsers: Seq<(Seq<char>, BrowserModel)>) -> bool {
    rule.target == block_target() || rule.target == resolve_target() || has_key(
        browsers,
        rule.target,
    )
}

/// The rule has at least one matcher: host, URL text, regex or scheme.
pub open spec fn has_matcher(rule: RuleModel) -> bool {
    rule.host_glob is Some || rule.url_contains is Some || rule.url_regex is Some
        || rule.scheme is Some
}

/// A rule with nothing to warn about: a known target, a host glob that
/// parses, a regex that compiles, and some matcher.
pub open spec fn rule_clean(rule: RuleModel, browsers: Seq<(Seq<char>, BrowserModel)>) -> bool {
    &&& target_known(rule, browsers)
    &&& rule.host_glob is Some ==> glob_parse_error(rule.host_glob->0) is None
    &&& rule.url_regex is Some ==> regex_compile_error(rule.url_regex->0) is None
    &&& has_matcher(rule)
}

/// A rule gets no warning exactly when it is clean; a rule without any
/// matcher (one that matches every URL) always gets the no-matcher warning,
/// last; a rule with a scheme, host, URL-text or regex matcher is never
/// warned for lacking one.
pub proof fn lemma_rule_warnings_exact(
    i: nat,
    rule: RuleModel,
    browsers: Seq<(Seq<char>, BrowserModel)>,
)
    ensures
        rule_warnings(i, rule, browsers).len() == 0 <==> rule_clean(rule, browsers),
        !has_matcher(rule) ==> rule_warnings(i, rule, browsers).len() > 0 && rule_warnings(
            i,
            rule,
            browsers,
        ).last() == no_matcher_warning(rule),
        has_matcher(rule) && target_known(rule, browsers) && (rule.host_glob is Some
            ==> glob_parse_error(rule.host_glob->0) is None) && (rule.url_regex is Some
            ==> regex_compile_error(rule.url_regex->0) is None) ==> rule_warnings(
            i,
            rule,
            browsers,
        ).len() == 0,
{
}

proof fn lemma_rules_warnings_empty(
    rules: Seq<RuleModel>,
    browsers: Seq<(Seq<char>, BrowserModel)>,
)
    ensures
        rules_warnings(rules, browsers).len() == 0 <==> forall|k: int|
            0 <= k < rules.len() ==> rule_clean(#[trigger] rules[k], browsers),
    decreases rules.len(),
{
    if rules.len() > 0 {
        let n = (rules.len() - 1) as nat;
        lemma_rules_warnings_empty(rules.drop_last(), browsers);
        lemma_rule_warnings_exact(n, rules.last(), browsers);
        if forall|k: int| 0 <= k < rules.len() ==> rule_clean(#[trigger] rules[k], browsers) {
            assert forall|k: int| 0 <= k < rules.drop_last().len() implies rule_clean(
                #[trigger] rules.drop_last()[k],
                browsers,
            ) by {
                assert(rules.drop_last()[k] == rules[k]);
            }
            assert(rule_clean(rules[rules.len() - 1], browsers));
        }
        if rules_warnings(rules, browsers).len() == 0 {
            assert forall|k: int| 0 <= k < rules.len() implies rule_clean(
                #[trigger] rules[k],
                browsers,
            ) by {
                if k < rules.len() - 1 {
                    assert(rules.drop_last()[k] == rules[k]);
                }
            }
        }
    }
}

/// A configuration gets no warning exactly when its version is current,
/// every rule is clean, its default browser (if any) is configured and it
/// has at least one browser.
pub proof fn lemma_validate_clean(cfg: ConfigModel)
    ensures
        validate_spec(cfg).len() == 0 <==> {
            &&& cfg.version == 1
            &&& forall|k: int| 0 <= k < cfg.rules.len() ==> rule_clean(#[trigger] cfg.rules[k], cfg.browsers)
            &&& cfg.default_browser is Some ==> has_key(cfg.browsers, cfg.default_browser->0)
            &&& cfg.browsers.len() > 0
        },
{
    lemma_rules_warnings_empty(cfg.rules, cfg.browsers);
}

} // verus!
