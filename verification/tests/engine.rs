use linkport::config::{Browser, BrowserMap, Config, PortalConfig, Rule};
use linkport::engine::{evaluate, host_pattern_matches, Outcome, TARGET_BLOCK};

fn browser(exe: &str) -> Browser {
    Browser {
        display_name: exe.to_string(),
        exe: exe.to_string(),
        args: vec!["{url}".into()],
        incognito_args: None,
    }
}

fn cfg(rules: Vec<Rule>, default: Option<&str>) -> Config {
    let mut c = Config {
        version: 1,
        portal: PortalConfig::default(),
        default_browser: default.map(String::from),
        browsers: BrowserMap::new(),
        rules,
        redirect_hosts: Vec::new(),
    };
    c.browsers.insert("ff".into(), browser("firefox"));
    c.browsers.insert("chrome".into(), browser("chrome"));
    c
}

fn rule(name: &str, host_glob: Option<&str>, target: &str) -> Rule {
    Rule {
        name: name.into(),
        enabled: true,
        host_glob: host_glob.map(String::from),
        url_contains: None,
        url_regex: None,
        scheme: None,
        target: target.into(),
        incognito: false,
    }
}

#[test]
fn url_contains_is_case_insensitive_and_anded_with_host() {
    let mut r = rule("sso", Some("login.example.com"), "ff");
    r.url_contains = Some("redirect_uri=https%3A%2F%2Fsecurity.example.com".into());
    let c = cfg(vec![r], None);
    assert!(matches!(
        evaluate(
            &c,
            "https://login.example.com/auth?redirect_uri=https%3A%2F%2FSECURITY.example.com%2F"
        )
        .outcome,
        Outcome::RuleMatched { .. }
    ));
    // substring absent -> no match
    assert_eq!(
        evaluate(
            &c,
            "https://login.example.com/auth?redirect_uri=https%3A%2F%2Fmail.example.com%2F"
        )
        .outcome,
        Outcome::NoMatch
    );
    // substring present but host differs -> no match
    assert_eq!(
        evaluate(
            &c,
            "https://other.com/auth?redirect_uri=https%3A%2F%2Fsecurity.example.com%2F"
        )
        .outcome,
        Outcome::NoMatch
    );
}

#[test]
fn host_pattern_matches_cookie_domain() {
    assert!(host_pattern_matches("example.com", "example.com"));
    assert!(host_pattern_matches("example.com", "a.example.com"));
    assert!(host_pattern_matches("*.example.com", "a.example.com"));
    assert!(!host_pattern_matches("example.com", "notexample.com"));
    assert!(!host_pattern_matches("example.com", "a.example.com.evil.io"));
}

#[test]
fn first_matching_rule_wins() {
    let c = cfg(
        vec![
            rule("first", Some("*.example.com"), "ff"),
            rule("second", Some("*"), "chrome"),
        ],
        Some("chrome"),
    );
    let d = evaluate(&c, "https://api.example.com/x");
    assert_eq!(
        d.outcome,
        Outcome::RuleMatched {
            rule: "first".into(),
            target: "ff".into(),
            incognito: false
        }
    );
}

#[test]
fn disabled_rules_are_skipped_but_traced() {
    let mut r = rule("off", Some("*.example.com"), "ff");
    r.enabled = false;
    let c = cfg(vec![r], None);
    let d = evaluate(&c, "https://a.example.com/");
    assert_eq!(d.outcome, Outcome::NoMatch);
    assert_eq!(d.trace[0].reason, "disabled");
}

#[test]
fn host_glob_semantics() {
    let c = cfg(vec![rule("g", Some("*.example.com"), "ff")], None);
    assert!(matches!(
        evaluate(&c, "https://a.example.com/").outcome,
        Outcome::RuleMatched { .. }
    ));
    // cookie-style: the bare domain matches its own `*.` pattern
    assert!(matches!(
        evaluate(&c, "https://example.com/").outcome,
        Outcome::RuleMatched { .. }
    ));
    // other domains do not match
    assert_eq!(
        evaluate(&c, "https://notexample.com/").outcome,
        Outcome::NoMatch
    );
    // exact hosts still match exactly
    let c2 = cfg(vec![rule("loopback", Some("127.0.0.1"), "ff")], None);
    assert!(matches!(
        evaluate(&c2, "http://127.0.0.1:14200/").outcome,
        Outcome::RuleMatched { .. }
    ));
    // a bare host covers itself and every subdomain (cookie-domain style)
    let c3 = cfg(vec![rule("d", Some("example.com"), "ff")], None);
    for url in [
        "https://example.com/",
        "https://a.example.com/",
        "https://deep.a.example.com/",
    ] {
        assert!(
            matches!(evaluate(&c3, url).outcome, Outcome::RuleMatched { .. }),
            "bare host should match {url}"
        );
    }
    // the suffix must respect the dot boundary
    assert_eq!(
        evaluate(&c3, "https://notexample.com/").outcome,
        Outcome::NoMatch
    );
}

#[test]
fn combined_matchers_are_anded() {
    let mut r = rule("docs", Some("*.google.com"), "ff");
    r.url_regex = Some(r"docs\.google\.com".into());
    let c = cfg(vec![r], None);
    assert!(matches!(
        evaluate(&c, "https://docs.google.com/document").outcome,
        Outcome::RuleMatched { .. }
    ));
    assert_eq!(
        evaluate(&c, "https://mail.google.com/").outcome,
        Outcome::NoMatch
    );
}

#[test]
fn scheme_matcher() {
    let mut r = rule("zoom", None, "ff");
    r.scheme = Some("zoommtg".into());
    let c = cfg(vec![r], None);
    assert!(matches!(
        evaluate(&c, "zoommtg://zoom.us/join?conf=1").outcome,
        Outcome::RuleMatched { .. }
    ));
    assert_eq!(
        evaluate(&c, "https://zoom.us/join").outcome,
        Outcome::NoMatch
    );
}

#[test]
fn block_target() {
    let c = cfg(
        vec![rule("nope", Some("*.tracker.io"), TARGET_BLOCK)],
        Some("ff"),
    );
    let d = evaluate(&c, "https://pixel.tracker.io/x");
    assert_eq!(
        d.outcome,
        Outcome::Blocked {
            rule: "nope".into()
        }
    );
}

#[test]
fn default_used_when_no_rule_matches() {
    let c = cfg(vec![rule("g", Some("*.example.com"), "ff")], Some("chrome"));
    let d = evaluate(&c, "https://other.org/");
    assert_eq!(
        d.outcome,
        Outcome::Default {
            target: "chrome".into()
        }
    );
}

#[test]
fn unknown_default_falls_back_to_no_match() {
    let c = cfg(vec![], Some("ghost"));
    assert_eq!(evaluate(&c, "https://a.b/").outcome, Outcome::NoMatch);
}
