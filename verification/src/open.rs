//! The hot path's decisions: which browser to launch with which arguments
//! for a routed URL, the pause mode, redirect re-routing, and the CLI's
//! browser listing.

use vstd::prelude::*;
use crate::config::{
    has_key, opt_str, resolved_args_spec, strs, value_of, BrowserModel, Config, ConfigModel,
};
use crate::engine::{
    default_outcome, default_outcome_of, evaluate, evaluate_spec, host_pattern_matches,
    host_pattern_spec, resolve_chars, resolve_target, traces_view, url_host, url_host_and_scheme, url_scheme, Decision,
    DecisionModel, OutcomeModel, Outcome,
};
use crate::platform::{discovered_view, DiscoveredBrowser, DiscoveredModel};
use crate::text::{chars_eq, chars_of, owned, push_all, push_str, string_of};

verus! {

broadcast use vstd::string::group_string_axioms;

/// A process to start: the executable and its arguments.
#[derive(Debug, Clone, PartialEq)]
pub struct Launch {
    pub exe: String,
    pub args: Vec<String>,
}

/// The abstract content of a [`Launch`].
pub open spec fn launch_view(l: Launch) -> (Seq<char>, Seq<Seq<char>>) {
    (l.exe@, strs(l.args))
}

/// Launching browser `b` for `url`.
pub open spec fn launch_of(b: BrowserModel, url: Seq<char>, incognito: bool) -> (
    Seq<char>,
    Seq<Seq<char>>,
) {
    (b.exe, resolved_args_spec(b, url, incognito))
}

pub open spec fn not_configured(target: Seq<char>) -> Seq<char> {
    "browser '"@ + target + "' is not configured"@
}

/// The launch of configured browser `target` for `url`, or why there is
/// none.
pub open spec fn launch_browser_spec(
    cfg: ConfigModel,
    target: Seq<char>,
    url: Seq<char>,
    incognito: bool,
) -> Result<(Seq<char>, Seq<Seq<char>>), Seq<char>> {
    if has_key(cfg.browsers, target) {
        Ok(launch_of(value_of(cfg.browsers, target), url, incognito))
    } else {
        Err(not_configured(target))
    }
}

/// The launch of configured browser `target` for `url`.
pub fn launch_browser(cfg: &Config, target: &str, url: &str, incognito: bool) -> (r: Result<
    Launch,
    String,
>)
    ensures
        match r {
            Ok(l) => launch_browser_spec(cfg@, target@, url@, incognito) == Ok::<
                (Seq<char>, Seq<Seq<char>>),
                Seq<char>,
            >(launch_view(l)),
            Err(e) => launch_browser_spec(cfg@, target@, url@, incognito) == Err::<
                (Seq<char>, Seq<Seq<char>>),
                Seq<char>,
            >(e@),
        },
{
    match cfg.browsers.get(target) {
        Some(b) => Ok(Launch { exe: b.exe.clone(), args: b.resolved_args(url, incognito) }),
        None => {
            let mut v = chars_of("browser '");
            push_str(&mut v, target);
            push_str(&mut v, "' is not configured");
            Err(string_of(&v))
        },
    }
}

pub open spec fn no_route() -> Seq<char> {
    "no rule matched and no default browser is configured"@
}

/// Opening `url` in the default browser, when one is defined.
pub open spec fn open_default_spec(cfg: ConfigModel, url: Seq<char>) -> Result<
    Option<(Seq<char>, Seq<Seq<char>>)>,
    Seq<char>,
> {
    match default_outcome(cfg) {
        OutcomeModel::Default { target } => match launch_browser_spec(cfg, target, url, false) {
            Ok(l) => Ok(Some(l)),
            Err(e) => Err(e),
        },
        _ => Err(no_route()),
    }
}

/// What opening a routed URL does: launch the chosen browser (`Some`),
/// nothing for a blocked URL (`None`), or fail.
pub open spec fn open_spec(cfg: ConfigModel, d: DecisionModel) -> Result<
    Option<(Seq<char>, Seq<Seq<char>>)>,
    Seq<char>,
> {
    match d.outcome {
        OutcomeModel::RuleMatched { target, incognito, .. } => if target == resolve_target() {
            open_default_spec(cfg, d.url)
        } else {
            match launch_browser_spec(cfg, target, d.url, incognito) {
                Ok(l) => Ok(Some(l)),
                Err(e) => Err(e),
            }
        },
        OutcomeModel::Default { target } => match launch_browser_spec(cfg, target, d.url, false) {
            Ok(l) => Ok(Some(l)),
            Err(e) => Err(e),
        },
        OutcomeModel::Blocked { .. } => Ok(None),
        OutcomeModel::NoMatch => Err(no_route()),
    }
}

/// Opens the clicked link of a decision: the matched rule's browser (in
/// incognito when the rule asks), the default browser, nothing when
/// blocked, an error when nothing can open it.
pub fn open_url(cfg: &Config, decision: &Decision) -> (r: Result<Option<Launch>, String>)
    ensures
        match r {
            Ok(Some(l)) => open_spec(cfg@, decision@) == Ok::<
                Option<(Seq<char>, Seq<Seq<char>>)>,
                Seq<char>,
            >(Some(launch_view(l))),
            Ok(None) => open_spec(cfg@, decision@) == Ok::<
                Option<(Seq<char>, Seq<Seq<char>>)>,
                Seq<char>,
            >(None),
            Err(e) => open_spec(cfg@, decision@) == Err::<
                Option<(Seq<char>, Seq<Seq<char>>)>,
                Seq<char>,
            >(e@),
        },
{
    match &decision.outcome {
        Outcome::RuleMatched { target, incognito, .. } => {
            let tc = chars_of(target.as_str());
            let rc = resolve_chars();
            if chars_eq(&tc, &rc) {
                // Redirect resolution did not lead elsewhere: the default browser.
                match default_outcome_of(cfg) {
                    Outcome::Default { target: d } => match launch_browser(
                        cfg,
                        d.as_str(),
                        decision.url.as_str(),
                        false,
                    ) {
                        Ok(l) => Ok(Some(l)),
                        Err(e) => Err(e),
                    },
                    _ => Err(owned("no rule matched and no default browser is configured")),
                }
            } else {
                match launch_browser(cfg, target.as_str(), decision.url.as_str(), *incognito) {
                    Ok(l) => Ok(Some(l)),
                    Err(e) => Err(e),
                }
            }
        },
        Outcome::Default { target } => match launch_browser(
            cfg,
            target.as_str(),
            decision.url.as_str(),
            false,
        ) {
            Ok(l) => Ok(Some(l)),
            Err(e) => Err(e),
        },
        Outcome::Blocked { .. } => Ok(None),
        Outcome::NoMatch => Err(owned("no rule matched and no default browser is configured")),
    }
}

/// The decision for a clicked link: the rules, or — while routing is
/// paused — straight to the default browser.
pub open spec fn route_spec(cfg: ConfigModel, url: Seq<char>, paused: bool) -> DecisionModel {
    if paused {
        DecisionModel {
            url,
            host: url_host(url),
            scheme: url_scheme(url),
            outcome: default_outcome(cfg),
            trace: seq![],
            resolved_url: None,
        }
    } else {
        evaluate_spec(cfg, url)
    }
}

/// While routing is paused every link goes to the default browser, whatever
/// the rules say, and no rule is consulted.
pub proof fn lemma_paused_routes_to_default(cfg: ConfigModel, url: Seq<char>)
    ensures
        route_spec(cfg, url, true).outcome == default_outcome(cfg),
        route_spec(cfg, url, true).trace.len() == 0,
        route_spec(cfg, url, false) == evaluate_spec(cfg, url),
{
}

/// The decision for a clicked link, honouring the pause flag.
pub fn route(cfg: &Config, url: &str, paused: bool) -> (d: Decision)
    ensures
        d@ == route_spec(cfg@, url@, paused),
{
    if paused {
        let (host, scheme) = url_host_and_scheme(url);
        let d = Decision {
            url: owned(url),
            host,
            scheme,
            outcome: default_outcome_of(cfg),
            trace: Vec::new(),
            resolved_url: None,
        };
        assert(traces_view(d.trace) =~= Seq::<crate::engine::TraceModel>::empty());
        d
    } else {
        evaluate(cfg, url)
    }
}

/// The link's redirects should be followed: a rule with the `resolve`
/// target matched it, or no rule matched it and its host is one of the
/// configured redirect hosts.
pub open spec fn needs_resolution_spec(cfg: ConfigModel, d: DecisionModel) -> bool {
    ||| d.outcome matches OutcomeModel::RuleMatched { target, .. } && target == resolve_target()
    ||| redirect_host_link(cfg, d)
}

/// An unmatched link whose host is one of the configured redirect hosts.
pub open spec fn redirect_host_link(cfg: ConfigModel, d: DecisionModel) -> bool {
    &&& (d.outcome is Default || d.outcome is NoMatch)
    &&& d.host is Some
    &&& exists|i: int|
        0 <= i < cfg.redirect_hosts.len() && host_pattern_spec(
            #[trigger] cfg.redirect_hosts[i],
            d.host->0,
        )
}

/// A link that a `resolve` rule matches has its redirects followed; when
/// the rules are evaluated again and still point at `resolve` (nothing was
/// resolved), the clicked link opens in the default browser.
pub proof fn lemma_resolve_target(cfg: ConfigModel, d: DecisionModel)
    requires
        d.outcome matches OutcomeModel::RuleMatched { target, .. } && target == resolve_target(),
    ensures
        needs_resolution_spec(cfg, d),
        open_spec(cfg, d) == open_default_spec(cfg, d.url),
{
}

/// Whether the link's redirects should be followed before routing.
pub fn needs_resolution(cfg: &Config, decision: &Decision) -> (r: bool)
    ensures
        r == needs_resolution_spec(cfg@, decision@),
{
    if let Outcome::RuleMatched { target, .. } = &decision.outcome {
        let tc = chars_of(target.as_str());
        let rc = resolve_chars();
        if chars_eq(&tc, &rc) {
            return true;
        }
    }
    let unmatched = match &decision.outcome {
        Outcome::Default { .. } => true,
        Outcome::NoMatch => true,
        _ => false,
    };
    if !unmatched {
        return false;
    }
    match &decision.host {
        None => false,
        Some(h) => {
            let ghost hosts = strs(cfg.redirect_hosts);
            let mut i: usize = 0;
            while i < cfg.redirect_hosts.len()
                invariant
                    hosts == strs(cfg.redirect_hosts),
                    hosts == cfg@.redirect_hosts,
                    decision@.outcome is Default || decision@.outcome is NoMatch,
                    decision@.host == Some(h@),
                    i <= hosts.len(),
                    forall|j: int| 0 <= j < i ==> !host_pattern_spec(#[trigger] hosts[j], h@),
                decreases hosts.len() - i,
            {
                if host_pattern_matches(cfg.redirect_hosts[i].as_str(), h.as_str()) {
                    assert(host_pattern_spec(hosts[i as int], h@));
                    return true;
                }
                i = i + 1;
            }
            false
        },
    }
}

/// The decision after redirect resolution: evaluated against the final URL
/// when one was found, the clicked link kept as the URL.
pub open spec fn reroute_spec(cfg: ConfigModel, clicked: Seq<char>, resolved: Option<Seq<char>>) -> DecisionModel {
    match resolved {
        Some(r) => DecisionModel { url: clicked, resolved_url: Some(r), ..evaluate_spec(cfg, r) },
        None => evaluate_spec(cfg, clicked),
    }
}

/// A re-routed link keeps the clicked URL and records the final URL, and is
/// decided exactly as the final URL would be; without a final URL it is
/// decided as clicked.
pub proof fn lemma_reroute(cfg: ConfigModel, clicked: Seq<char>, resolved: Option<Seq<char>>)
    ensures
        reroute_spec(cfg, clicked, resolved).url == clicked,
        reroute_spec(cfg, clicked, resolved).resolved_url == resolved,
        resolved matches Some(r) ==> reroute_spec(cfg, clicked, resolved).outcome == evaluate_spec(
            cfg,
            r,
        ).outcome,
        resolved is None ==> reroute_spec(cfg, clicked, resolved) == evaluate_spec(cfg, clicked),
{
}

/// Re-evaluates a link after redirect resolution.
pub fn reroute(cfg: &Config, clicked: &str, resolved: Option<String>) -> (d: Decision)
    ensures
        d@ == reroute_spec(cfg@, clicked@, opt_str(resolved)),
{
    match resolved {
        Some(r) => {
            let mut d = evaluate(cfg, r.as_str());
            d.url = owned(clicked);
            d.resolved_url = Some(r);
            d
        },
        None => evaluate(cfg, clicked),
    }
}

// ---------------------------------------------------------------------------
// Browser listing (CLI)
// ---------------------------------------------------------------------------

pub open spec fn spaces(n: nat) -> Seq<char> {
    Seq::new(n, |i: int| ' ')
}

/// `{:<w}`: the text padded with spaces to `w` characters.
pub open spec fn pad_right(s: Seq<char>, w: nat) -> Seq<char> {
    if s.len() < w {
        s + spaces((w - s.len()) as nat)
    } else {
        s
    }
}

fn pad_chars(v: &mut Vec<char>, s: &str, w: usize)
    ensures
        final(v)@ == old(v)@ + pad_right(s@, w as nat),
{
    let ghost start = v@;
    let sc = chars_of(s);
    push_all(v, &sc);
    let mut k = sc.len();
    while k < w
        invariant
            sc@ == s@,
            sc@.len() <= k <= w || (k == sc@.len() && k >= w),
            v@ == start + s@ + spaces((k - sc@.len()) as nat),
        decreases w - k,
    {
        v.push(' ');
        k = k + 1;
        assert(v@ =~= start + s@ + spaces((k - sc@.len()) as nat));
    }
    assert(v@ =~= start + pad_right(s@, w as nat));
}

pub open spec fn configured_line(e: (Seq<char>, BrowserModel)) -> Seq<char> {
    "  "@ + pad_right(e.0, 16) + " "@ + e.1.display_name + " -> "@ + e.1.exe
}

pub open spec fn discovered_line(d: DiscoveredModel) -> Seq<char> {
    "  "@ + pad_right(d.name, 16) + " "@ + d.command
}

/// The lines `browsers` prints: configured browsers, discovered ones, and
/// the default.
pub open spec fn listing_spec(cfg: ConfigModel, discovered: Seq<DiscoveredModel>) -> Seq<
    Seq<char>,
> {
    (if cfg.browsers.len() == 0 {
        seq!["no browsers configured — run `linkport serve` and use the portal"@]
    } else {
        seq!["configured:"@] + cfg.browsers.map_values(
            |e: (Seq<char>, BrowserModel)| configured_line(e),
        )
    }) + (if discovered.len() > 0 {
        seq!["discovered on this system:"@] + discovered.map_values(
            |d: DiscoveredModel| discovered_line(d),
        )
    } else {
        seq![]
    }) + (match cfg.default_browser {
        Some(d) => seq!["default: "@ + d],
        None => if cfg.browsers.len() > 0 {
            seq!["default: (none set)"@]
        } else {
            seq![]
        },
    })
}

fn push_line(out: &mut Vec<String>, v: &Vec<char>)
    ensures
        strs(*final(out)) == strs(*old(out)).push(v@),
{
    let ghost prev = strs(*out);
    let s = string_of(v);
    out.push(s);
    assert(strs(*out) =~= prev.push(v@));
}

/// The lines of the CLI's browser listing.
pub fn browser_listing(cfg: &Config, discovered: &Vec<DiscoveredBrowser>) -> (r: Vec<String>)
    ensures
        strs(r) == listing_spec(cfg@, discovered_view(*discovered)),
{
    let mut out: Vec<String> = Vec::new();
    assert(strs(out) =~= Seq::<Seq<char>>::empty());
    let ghost b = cfg.browsers@;
    if cfg.browsers.is_empty() {
        let v = chars_of("no browsers configured — run `linkport serve` and use the portal");
        push_line(&mut out, &v);
    } else {
        let v = chars_of("configured:");
        push_line(&mut out, &v);
        let mut i: usize = 0;
        while i < cfg.browsers.len()
            invariant
                b == cfg.browsers@,
                i <= b.len(),
                strs(out) == seq!["configured:"@] + b.take(i as int).map_values(
                    |e: (Seq<char>, BrowserModel)| configured_line(e),
                ),
            decreases b.len() - i,
        {
            let mut v = chars_of("  ");
            pad_chars(&mut v, cfg.browsers.key_at(i).as_str(), 16);
            push_str(&mut v, " ");
            push_str(&mut v, cfg.browsers.value_at(i).display_name.as_str());
            push_str(&mut v, " -> ");
            push_str(&mut v, cfg.browsers.value_at(i).exe.as_str());
            assert(v@ == configured_line(b[i as int]));
            push_line(&mut out, &v);
            i = i + 1;
            assert(strs(out) =~= seq!["configured:"@] + b.take(i as int).map_values(
                |e: (Seq<char>, BrowserModel)| configured_line(e),
            ));
        }
        assert(b.take(i as int) =~= b);
    }
    let ghost s1 = strs(out);
    let ghost dv = discovered_view(*discovered);
    if discovered.len() > 0 {
        let v = chars_of("discovered on this system:");
        push_line(&mut out, &v);
        let mut i: usize = 0;
        while i < discovered.len()
            invariant
                dv == discovered_view(*discovered),
                i <= dv.len(),
                strs(out) == s1 + seq!["discovered on this system:"@] + dv.take(i as int).map_values(
                    |d: DiscoveredModel| discovered_line(d),
                ),
            decreases dv.len() - i,
        {
            let mut v = chars_of("  ");
            pad_chars(&mut v, discovered[i].name.as_str(), 16);
            push_str(&mut v, " ");
            push_str(&mut v, discovered[i].command.as_str());
            assert(v@ == discovered_line(dv[i as int]));
            push_line(&mut out, &v);
            i = i + 1;
            assert(strs(out) =~= s1 + seq!["discovered on this system:"@] + dv.take(
                i as int,
            ).map_values(|d: DiscoveredModel| discovered_line(d)));
        }
        assert(dv.take(i as int) =~= dv);
    }
    let ghost s2 = strs(out);
    match &cfg.default_browser {
        Some(d) => {
            let mut v = chars_of("default: ");
            push_str(&mut v, d.as_str());
            push_line(&mut out, &v);
        },
        None => {
            if !cfg.browsers.is_empty() {
                let v = chars_of("default: (none set)");
                push_line(&mut out, &v);
            }
        },
    }
    assert(strs(out) =~= listing_spec(cfg@, dv));
    out
}

/// Only unmatched links and links of a `resolve` rule have their redirects
/// followed: a link that a rule sends to a browser, or blocks, opens as
/// clicked.
pub proof fn lemma_only_unmatched_links_resolve(cfg: ConfigModel, d: DecisionModel)
    ensures
        needs_resolution_spec(cfg, d) ==> (d.outcome is Default || d.outcome is NoMatch || (
        d.outcome is RuleMatched && d.outcome->RuleMatched_target == resolve_target())),
{
}

} // verus!
