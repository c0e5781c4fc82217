use linkport::api::{events_limit, put_config, resolve_default, EventsParams};
use linkport::config::{default_true, Browser, BrowserMap, Config, PortalConfig, Rule};
use linkport::engine::{evaluate, host_pattern_matches, matches_rule, Outcome};
use linkport::event::{recent, Event};
use linkport::launcher::{command_exe, parse_command_template};
use linkport::open::{
    browser_listing, launch_browser, needs_resolution, open_url, reroute, route, Launch,
};
use linkport::paths::{
    config_dir, config_path, events_path, hex_token, pause_flag_path, token_from_file, token_path,
};
use linkport::platform::{
    autostart_command, default_handler_command, discover_browsers, display_name_for,
    ensure_start_menu_shortcut, handler_ok, icon_source, is_enabled, is_registered, ps_str,
    register, registered_handler, select_discovered, shortcut_script, system_default_exe,
    DiscoveredBrowser,
};
use linkport::portal::{
    asset_candidates, asset_path, auth, constant_time_eq, mime_type, open_portal_url,
    portal_browser, portal_url_string, provided_token, AppState,
};
use linkport::redirect::{join_location, RedirectChain, MAX_HOPS};
use linkport::update::{check, is_newer, latest_tag, releases_url, strip_v, tooltip_text};
use linkport::validate::validate;

fn browser(exe: &str) -> Browser {
    Browser {
        display_name: exe.to_uppercase(),
        exe: format!("/usr/bin/{exe}"),
        args: vec!["--new".into(), "{url}".into()],
        incognito_args: Some(vec!["--private".into(), "{url}".into()]),
    }
}

fn rule(name: &str, host_glob: Option<&str>, target: &str) -> Rule {
    Rule {
        name: name.into(),
        enabled: default_true(),
        host_glob: host_glob.map(String::from),
        url_contains: None,
        url_regex: None,
        scheme: None,
        target: target.into(),
        incognito: false,
    }
}

fn cfg(rules: Vec<Rule>, default: Option<&str>) -> Config {
    let mut c = Config::default();
    c.rules = rules;
    c.default_browser = default.map(String::from);
    c.browsers.insert("ff".into(), browser("firefox"));
    c.browsers.insert("chrome".into(), browser("chrome"));
    c
}

// ---------------------------------------------------------------------------
// Browser table
// ---------------------------------------------------------------------------

#[test]
fn browser_table_keeps_ids_sorted_and_gives_back_what_was_inserted() {
    let mut m = BrowserMap::new();
    m.insert("zeta".into(), browser("z"));
    m.insert("alpha".into(), browser("a"));
    m.insert("mid".into(), browser("m"));
    assert_eq!(m.len(), 3);
    let keys: Vec<&String> = (0..m.len()).map(|i| m.key_at(i)).collect();
    assert_eq!(keys, vec!["alpha", "mid", "zeta"]);
    assert_eq!(m.get("mid").unwrap().exe, "/usr/bin/m");
    // replacing keeps one entry per id
    m.insert("mid".into(), browser("other"));
    assert_eq!(m.len(), 3);
    assert_eq!(m.get("mid").unwrap().exe, "/usr/bin/other");
    assert!(m.get("ghost").is_none());
    assert!(!m.contains_key("ghost"));
    assert_eq!(m.first().unwrap().0, "alpha");
    assert_eq!(m.copy(), m);
}

#[test]
fn defaults() {
    let c = Config::default();
    assert_eq!(c.version, 1);
    assert_eq!(c.portal, PortalConfig { port: 14200 });
    assert!(c.browsers.is_empty());
    assert!(default_true());
}

// ---------------------------------------------------------------------------
// Rule engine details
// ---------------------------------------------------------------------------

#[test]
fn host_patterns_are_case_insensitive_and_fall_back_to_globs() {
    assert!(host_pattern_matches("Example.COM", "A.EXAMPLE.com"));
    assert!(host_pattern_matches("*.Example.com", "EXAMPLE.COM"));
    // wildcards other than a leading `*.` use glob matching
    assert!(host_pattern_matches("exampl?.com", "example.com"));
    assert!(!host_pattern_matches("exampl?.com", "examples.com"));
    assert!(host_pattern_matches("*.example.*", "a.example.org"));
    // an invalid glob never matches
    assert!(!host_pattern_matches("[", "["));
}

#[test]
fn match_reasons_name_the_failing_constraint() {
    let mut r = rule("z", None, "ff");
    r.scheme = Some("zoommtg".into());
    let host = Some("zoom.us".to_string());
    let https = Some("https".to_string());
    assert_eq!(
        matches_rule(&r, "https://zoom.us/", &host, &https).as_deref(),
        Some(r#"scheme "zoommtg" != Some("https")"#)
    );
    assert_eq!(
        matches_rule(&r, "x", &None, &None).as_deref(),
        Some(r#"scheme "zoommtg" != None"#)
    );
    r.scheme = Some("HTTPS".into());
    assert_eq!(matches_rule(&r, "https://zoom.us/", &host, &https), None);

    let h = rule("h", Some("x.com"), "ff");
    assert_eq!(
        matches_rule(&h, "https://zoom.us/", &host, &https).as_deref(),
        Some(r#"host_glob "x.com" did not match host Some("zoom.us")"#)
    );

    let mut c = rule("c", None, "ff");
    c.url_contains = Some("Needle".into());
    assert_eq!(
        matches_rule(&c, "https://zoom.us/", &host, &https).as_deref(),
        Some(r#"url_contains "Needle" not in url"#)
    );
    assert_eq!(matches_rule(&c, "https://zoom.us/NEEDLE", &host, &https), None);

    let mut bad = rule("b", None, "ff");
    bad.url_regex = Some("(".into());
    let reason = matches_rule(&bad, "https://zoom.us/", &host, &https).unwrap();
    assert!(reason.starts_with("invalid url_regex: "), "{reason}");

    let mut re = rule("r", None, "ff");
    re.url_regex = Some(r"^https://docs\.".into());
    assert_eq!(
        matches_rule(&re, "https://zoom.us/", &host, &https).as_deref(),
        Some(r#"url_regex "^https://docs\\." did not match url"#)
    );
    assert_eq!(matches_rule(&re, "https://docs.x/", &host, &https), None);
}

#[test]
fn decision_records_url_host_scheme_and_trace() {
    let mut off = rule("off", None, "ff");
    off.enabled = false;
    let c = cfg(
        vec![off, rule("miss", Some("other.org"), "ff"), rule("hit", Some("example.com"), "chrome")],
        Some("ff"),
    );
    let d = evaluate(&c, "HTTPS://WWW.Example.COM/Path");
    assert_eq!(d.url, "HTTPS://WWW.Example.COM/Path");
    assert_eq!(d.host.as_deref(), Some("www.example.com"));
    assert_eq!(d.scheme.as_deref(), Some("https"));
    assert_eq!(d.trace.len(), 3);
    assert_eq!(d.trace[0].reason, "disabled");
    assert!(!d.trace[1].matched);
    assert_eq!(
        d.trace[1].reason,
        r#"host_glob "other.org" did not match host Some("www.example.com")"#
    );
    assert!(d.trace[2].matched);
    assert_eq!(d.trace[2].reason, "matched");
    assert_eq!(d.trace[2].name, "hit");
    assert_eq!(d.resolved_url, None);

    // an unparseable URL has no host and no scheme; only host-less rules can match
    let d2 = evaluate(&c, "not a url");
    assert_eq!(d2.host, None);
    assert_eq!(d2.scheme, None);
    assert_eq!(d2.outcome, Outcome::Default { target: "ff".into() });
    assert_eq!(d2.trace.len(), 3);
}

#[test]
fn rule_without_constraints_matches_everything() {
    let c = cfg(vec![rule("all", None, "chrome")], None);
    assert_eq!(
        evaluate(&c, "anything at all").outcome,
        Outcome::RuleMatched { rule: "all".into(), target: "chrome".into(), incognito: false }
    );
}

// ---------------------------------------------------------------------------
// Validation
// ---------------------------------------------------------------------------

#[test]
fn validate_reports_every_problem_in_order() {
    let mut c = Config::default();
    c.version = 2;
    let mut g = rule("g", Some("["), "ghost");
    g.url_regex = Some("(".into());
    c.rules.push(g);
    c.rules.push(rule("all", None, "block"));
    c.default_browser = Some("nope".into());
    let w = validate(&c);
    assert_eq!(w.len(), 7, "{w:?}");
    assert_eq!(w[0], "config version is 2, expected 1");
    assert_eq!(w[1], r#"rule[0] "g" targets unknown browser "ghost""#);
    assert!(w[2].starts_with(r#"rule "g" has invalid host_glob "[": "#), "{}", w[2]);
    assert_eq!(w[3], r#"rule "g" has invalid url_regex "(""#);
    assert_eq!(w[4], r#"rule "all" has no matcher and will match every URL"#);
    assert_eq!(w[5], r#"default_browser "nope" is not defined in [browsers]"#);
    assert_eq!(w[6], "no browsers configured; add one on the Browsers page");

    let ok = cfg(vec![rule("r", Some("a.b"), "ff")], Some("ff"));
    assert!(validate(&ok).is_empty());
    assert_eq!(validate(&Config::default()), vec!["no browsers configured; add one on the Browsers page"]);
}

#[test]
fn put_config_resolves_default_and_validates() {
    let c = cfg(vec![], Some("ghost"));
    let (saved, warnings) = put_config(c, Some("/usr/bin/firefox"));
    assert_eq!(saved.default_browser.as_deref(), Some("ff"));
    assert!(warnings.is_empty());
    let (saved, _) = put_config(cfg(vec![], None), Some("/usr/bin/opera"));
    assert_eq!(saved.default_browser.as_deref(), Some("chrome"));
}

// ---------------------------------------------------------------------------
// Hot path
// ---------------------------------------------------------------------------

#[test]
fn opening_launches_the_chosen_browser() {
    let mut r = rule("private", Some("bank.com"), "ff");
    r.incognito = true;
    let c = cfg(vec![r, rule("nope", Some("ads.io"), "block"), rule("gone", Some("x.io"), "ghost")], Some("chrome"));
    let d = route(&c, "https://bank.com/", false);
    assert_eq!(
        open_url(&c, &d),
        Ok(Some(Launch {
            exe: "/usr/bin/firefox".into(),
            args: vec!["--private".into(), "https://bank.com/".into()]
        }))
    );
    let d = route(&c, "https://ads.io/", false);
    assert_eq!(open_url(&c, &d), Ok(None));
    let d = route(&c, "https://x.io/", false);
    assert_eq!(open_url(&c, &d), Err("browser 'ghost' is not configured".to_string()));
    let d = route(&c, "https://other.org/", false);
    assert_eq!(
        open_url(&c, &d).unwrap().unwrap().args,
        vec!["--new".to_string(), "https://other.org/".to_string()]
    );
    let none = cfg(vec![], None);
    let d = route(&none, "https://other.org/", false);
    assert_eq!(
        open_url(&none, &d),
        Err("no rule matched and no default browser is configured".to_string())
    );
    assert_eq!(
        launch_browser(&c, "ff", "u", true).unwrap().args,
        vec!["--private".to_string(), "u".to_string()]
    );
}

#[test]
fn paused_routing_sends_everything_to_the_default_browser() {
    let c = cfg(vec![rule("nope", Some("ads.io"), "block")], Some("chrome"));
    let d = route(&c, "https://ads.io/", true);
    assert_eq!(d.outcome, Outcome::Default { target: "chrome".into() });
    assert!(d.trace.is_empty());
    assert_eq!(d.host.as_deref(), Some("ads.io"));
    let unpaused = route(&c, "https://ads.io/", false);
    assert_eq!(unpaused.outcome, Outcome::Blocked { rule: "nope".into() });
}

#[test]
fn tracker_links_are_rerouted_by_their_destination() {
    let mut c = cfg(vec![rule("docs", Some("docs.example.com"), "ff")], Some("chrome"));
    c.redirect_hosts.push("track.example.net".into());
    let d = route(&c, "https://a.track.example.net/c/1", false);
    assert!(needs_resolution(&c, &d));
    let other = route(&c, "https://elsewhere.org/", false);
    assert!(!needs_resolution(&c, &other));
    let matched = route(&c, "https://docs.example.com/", false);
    assert!(!needs_resolution(&c, &matched));

    let r = reroute(&c, "https://a.track.example.net/c/1", Some("https://docs.example.com/x".into()));
    assert_eq!(r.url, "https://a.track.example.net/c/1");
    assert_eq!(r.resolved_url.as_deref(), Some("https://docs.example.com/x"));
    assert_eq!(r.host.as_deref(), Some("docs.example.com"));
    assert!(matches!(r.outcome, Outcome::RuleMatched { .. }));
    let same = reroute(&c, "https://a.track.example.net/c/1", None);
    assert_eq!(same, evaluate(&c, "https://a.track.example.net/c/1"));
}

#[test]
fn browser_listing_lines() {
    let c = cfg(vec![], None);
    let found = vec![DiscoveredBrowser {
        name: "Firefox-308046B0AF4A39CB".into(),
        display_name: "Mozilla Firefox".into(),
        command: "firefox.exe %1".into(),
    }];
    let lines = browser_listing(&c, &found);
    assert_eq!(
        lines,
        vec![
            "configured:".to_string(),
            "  chrome           CHROME -> /usr/bin/chrome".to_string(),
            "  ff               FIREFOX -> /usr/bin/firefox".to_string(),
            "discovered on this system:".to_string(),
            "  Firefox-308046B0AF4A39CB firefox.exe %1".to_string(),
            "default: (none set)".to_string(),
        ]
    );
    assert_eq!(
        browser_listing(&Config::default(), &Vec::new()),
        vec!["no browsers configured — run `linkport serve` and use the portal".to_string()]
    );
}

// ---------------------------------------------------------------------------
// Command templates and platform text
// ---------------------------------------------------------------------------

#[test]
fn command_templates_dedup_and_keep_the_exe() {
    let (exe, args) = parse_command_template(r#"  "C:\a b\x.exe" %1 "%1" --k --k  "#);
    assert_eq!(exe, r"C:\a b\x.exe");
    assert_eq!(args, vec!["{url}", "--k"]);
    let (exe, args) = parse_command_template(r#""C:\unterminated.exe --x"#);
    assert_eq!(exe, r"C:\unterminated.exe --x");
    assert_eq!(args, vec!["{url}"]);
    let (exe, args) = parse_command_template("");
    assert_eq!(exe, "");
    assert_eq!(args, vec!["{url}"]);
    assert_eq!(command_exe(r#" "C:\a b\x.exe" -osint "#), r"C:\a b\x.exe");
    assert_eq!(icon_source(r#""C:\l\linkport.exe" "%1""#), r"C:\l\linkport.exe,0");
}

#[test]
fn platform_text() {
    assert_eq!(ps_str("it's"), "'it''s'");
    assert_eq!(
        default_handler_command(Some(r"C:\l\linkport.exe"), Some(r"C:\l\cli.exe")),
        r#""C:\l\linkport.exe" "%1""#
    );
    assert_eq!(
        default_handler_command(None, Some(r"C:\l\cli.exe")),
        r#""C:\l\cli.exe" open "%1""#
    );
    assert_eq!(default_handler_command(None, None), "");
    assert_eq!(autostart_command(None, Some("/bin/lp")), r#""/bin/lp" serve"#);
    assert_eq!(autostart_command(None, None), "");
    assert_eq!(display_name_for("Key", Some("  Brave  ")), "Brave");
    assert_eq!(display_name_for("Key", Some("   ")), "Key");
    assert_eq!(display_name_for("Key", None), "Key");

    let d = |n: &str, c: &str| DiscoveredBrowser {
        name: n.into(),
        display_name: n.into(),
        command: c.into(),
    };
    let kept = select_discovered(vec![
        d("Firefox", "ff %1"),
        d("LINKPORT", "lp %1"),
        d("Firefox", "ff %1"),
        d("Firefox", "ff2 %1"),
    ]);
    assert_eq!(kept, vec![d("Firefox", "ff %1"), d("Firefox", "ff2 %1")]);
}

#[test]
fn integration_points_are_inert_on_this_platform() {
    assert!(register("/x", "cmd").is_err());
    assert!(!is_registered());
    assert_eq!(registered_handler(), None);
    assert!(handler_ok());
    assert!(!is_enabled());
    assert!(discover_browsers().is_empty());
    assert_eq!(system_default_exe(), None);
    assert_eq!(
        ensure_start_menu_shortcut("/x"),
        Err("Start Menu shortcuts are only supported on Windows".to_string())
    );
}

// ---------------------------------------------------------------------------
// Portal
// ---------------------------------------------------------------------------

#[test]
fn portal_url_and_authorization() {
    let s = AppState::new("abc123".into(), 14200);
    assert_eq!(portal_url_string(&s), "http://127.0.0.1:14200/?token=abc123");
    assert_eq!(auth(&s, Some("127.0.0.1:14200"), Some("Bearer abc123"), None), Ok(()));
    assert_eq!(auth(&s, Some("localhost"), None, Some("x=1&token=abc123")), Ok(()));
    assert_eq!(auth(&s, Some("[::1]:14200"), None, Some("token=abc123")), Ok(()));
    assert_eq!(auth(&s, Some("[::1]"), Some("Bearer abc123"), None), Ok(()));
    assert_eq!(auth(&s, Some("[::1]"), Some("Bearer wrong"), None), Err(401));
    assert_eq!(auth(&s, Some("localhost:"), Some("Bearer abc123"), None), Ok(()));
    assert_eq!(auth(&s, Some("[::1]:x"), Some("Bearer abc123"), None), Ok(()));
    assert_eq!(auth(&s, Some("[::1"), Some("Bearer abc123"), None), Err(403));
    assert_eq!(auth(&s, Some("evil.com:127.0.0.1"), Some("Bearer abc123"), None), Err(403));
    assert_eq!(auth(&s, Some("localhost:abc"), Some("Bearer abc123"), None), Ok(()));
    assert_eq!(auth(&s, Some("evil.com:14200"), Some("Bearer abc123"), None), Err(403));
    assert_eq!(auth(&s, None, Some("Bearer abc123"), None), Err(403));
    assert_eq!(auth(&s, Some("127.0.0.1"), Some("Bearer abc12"), None), Err(401));
    assert_eq!(auth(&s, Some("127.0.0.1"), Some("Basic abc123"), None), Err(401));
    assert_eq!(provided_token(Some("Basic x"), Some("a=1&token=t1&token=t2")), "t1");
    assert_eq!(provided_token(None, None), "");
    assert!(constant_time_eq(b"abc", b"abc"));
    assert!(!constant_time_eq(b"abc", b"abd"));
    assert!(!constant_time_eq(b"abc", b"ab"));
}

#[test]
fn portal_opens_in_routed_then_fallback_browser() {
    let s = AppState::new("t".into(), 14200);
    let c = cfg(vec![rule("portal", Some("127.0.0.1"), "chrome")], Some("ff"));
    let launches = open_portal_url(&s, &c, false, &Vec::new());
    assert_eq!(launches.len(), 2);
    assert_eq!(launches[0].exe, "/usr/bin/chrome");
    assert_eq!(launches[1].exe, "/usr/bin/firefox");
    assert_eq!(launches[1].args[1], "http://127.0.0.1:14200/?token=t");
    let paused = open_portal_url(&s, &c, true, &Vec::new());
    assert_eq!(paused.len(), 1);
    let empty = Config::default();
    let found = vec![DiscoveredBrowser {
        name: "Brave".into(),
        display_name: "Brave".into(),
        command: r#""C:\b\brave.exe" --single-argument %1"#.into(),
    }];
    let b = portal_browser(&empty, &found).unwrap();
    assert_eq!(b.exe, r"C:\b\brave.exe");
    assert_eq!(b.args, vec!["--single-argument", "{url}"]);
    assert!(portal_browser(&empty, &Vec::new()).is_none());
}

#[test]
fn assets() {
    assert_eq!(asset_path("/"), "index.html");
    assert_eq!(asset_path("//rules"), "rules");
    assert_eq!(asset_candidates("rules"), vec!["rules", "rules.html", "index.html"]);
    assert_eq!(mime_type("app.min.js"), "text/javascript");
    assert_eq!(mime_type("index.html"), "text/html; charset=utf-8");
    assert_eq!(mime_type("blob"), "application/octet-stream");
    assert_eq!(mime_type("site.webmanifest"), "application/manifest+json");
}

// ---------------------------------------------------------------------------
// Paths, tokens, history, limits
// ---------------------------------------------------------------------------

#[test]
fn paths_and_tokens() {
    let dir = config_dir(Some("/home/u/.config"), "/tmp");
    assert_eq!(dir, "/home/u/.config/linkport");
    assert_eq!(config_dir(None, "/tmp/"), "/tmp/linkport");
    assert_eq!(config_path(&dir), "/home/u/.config/linkport/config.toml");
    assert_eq!(events_path(&dir), "/home/u/.config/linkport/events.jsonl");
    assert_eq!(token_path(&dir), "/home/u/.config/linkport/token");
    assert_eq!(pause_flag_path(&dir), "/home/u/.config/linkport/paused.flag");
    assert_eq!(hex_token(&[0x00, 0xab, 0x0f, 0xff]), "00ab0fff");
    assert_eq!(token_from_file("  abc\n").as_deref(), Some("abc"));
    assert_eq!(token_from_file(" \n"), None);
}

#[test]
fn history_is_newest_first_and_limited() {
    let events: Vec<Event> = (0..5)
        .map(|i| Event::new(format!("https://example.com/{i}"), None, Outcome::NoMatch))
        .collect();
    assert!(!events[0].timestamp.is_empty());
    let r = recent(events.clone(), 3);
    let urls: Vec<&str> = r.iter().map(|e| e.url.as_str()).collect();
    assert_eq!(urls, vec!["https://example.com/4", "https://example.com/3", "https://example.com/2"]);
    assert_eq!(recent(events.clone(), 10).len(), 5);
    assert!(recent(events, 0).is_empty());
    assert_eq!(events_limit(&EventsParams { limit: None }), 50);
    assert_eq!(events_limit(&EventsParams { limit: Some(7) }), 7);
    assert_eq!(events_limit(&EventsParams { limit: Some(9000) }), 500);
}

// ---------------------------------------------------------------------------
// Redirects
// ---------------------------------------------------------------------------

#[test]
fn redirect_chain_follows_locations_and_stops() {
    assert_eq!(join_location("https://a.b/x/y", "/z?q=1"), "https://a.b/z?q=1");
    assert_eq!(join_location("https://a.b/x/y", "w"), "https://a.b/x/w");
    assert_eq!(join_location("not a url", "/z"), "/z");

    let mut c = RedirectChain::start("https://t.co/1");
    assert!(c.wants_hop());
    c.step(Some("https://dest.org/"));
    assert_eq!(c.current(), "https://dest.org/");
    c.step(None);
    assert!(!c.wants_hop());
    assert_eq!(c.result().as_deref(), Some("https://dest.org/"));

    let mut none = RedirectChain::start("https://t.co/1");
    none.step(None);
    assert_eq!(none.result(), None);

    let mut same = RedirectChain::start("https://t.co/1");
    same.step(Some("/1"));
    assert!(!same.wants_hop());
    assert_eq!(same.result(), None);

    let mut looping = RedirectChain::start("https://t.co/0");
    let mut n = 0;
    while looping.wants_hop() {
        n += 1;
        let next = format!("/{n}");
        looping.step(Some(next.as_str()));
    }
    assert_eq!(n, MAX_HOPS);
    assert_eq!(looping.result().as_deref(), Some("https://t.co/5"));
}

// ---------------------------------------------------------------------------
// Updates
// ---------------------------------------------------------------------------

#[test]
fn update_check_results_and_versions() {
    assert!(!is_newer("1.2", "1.2"));
    assert!(is_newer("+1", "0"));
    assert!(!is_newer("1x", "0"), "non-numeric parts count as 0");
    assert!(is_newer("1.0.1", "1"));
    assert!(!is_newer("99999999999999999999", "0"), "overflowing parts count as 0");
    assert_eq!(strip_v("vV1.0"), "1.0");
    assert_eq!(latest_tag("  v1.2.3 "), Ok("v1.2.3".to_string()));
    assert_eq!(latest_tag("  "), Err("empty tag_name".to_string()));
    let ok = check("0.2.1", Ok("v0.3.0".into()));
    assert!(ok.available);
    assert_eq!(ok.latest.as_deref(), Some("0.3.0"));
    assert_eq!(ok.url, releases_url());
    assert_eq!(releases_url(), "https://github.com/butageek/linkport/releases/latest");
    let err = check("0.2.1", Err("offline".into()));
    assert_eq!(err.error.as_deref(), Some("offline"));
    assert_eq!(
        tooltip_text("0.2.1", true),
        "Linkport 0.2.1 — routing paused (all links to default browser)"
    );
    assert_eq!(tooltip_text("0.2.1", false), "Linkport 0.2.1 — rule-based browser router");
}

#[test]
fn resolve_rules_are_known_targets_and_trigger_resolution() {
    let mut r = rule("tracker", Some("track.example.net"), "resolve");
    r.incognito = true;
    let c = cfg(vec![r, rule("docs", Some("docs.example.com"), "ff")], Some("chrome"));
    assert!(validate(&c).is_empty(), "{:?}", validate(&c));
    let d = route(&c, "https://track.example.net/c/1", false);
    assert!(matches!(&d.outcome, Outcome::RuleMatched { target, .. } if target == "resolve"));
    assert!(needs_resolution(&c, &d));
    // Resolution led to a routed destination.
    let r = reroute(&c, "https://track.example.net/c/1", Some("https://docs.example.com/x".into()));
    assert_eq!(
        open_url(&c, &r),
        Ok(Some(Launch {
            exe: "/usr/bin/firefox".into(),
            args: vec!["--new".into(), "https://track.example.net/c/1".into()]
        }))
    );
    // Resolution found nothing: the clicked link goes to the default browser.
    let again = reroute(&c, "https://track.example.net/c/1", None);
    assert_eq!(
        open_url(&c, &again),
        Ok(Some(Launch {
            exe: "/usr/bin/chrome".into(),
            args: vec!["--new".into(), "https://track.example.net/c/1".into()]
        }))
    );
    let nodefault = cfg(vec![rule("tracker", Some("track.example.net"), "resolve")], None);
    let d = route(&nodefault, "https://track.example.net/", false);
    assert_eq!(
        open_url(&nodefault, &d),
        Err("no rule matched and no default browser is configured".to_string())
    );
}

#[test]
fn url_contains_counts_as_a_matcher() {
    let mut r = rule("sso", None, "ff");
    r.url_contains = Some("redirect_uri".into());
    let c = cfg(vec![r], Some("ff"));
    assert!(validate(&c).is_empty(), "{:?}", validate(&c));
}

#[test]
fn events_are_stamped_in_rfc3339() {
    let e = Event::new("https://a.b/".into(), Some("a.b".into()), Outcome::NoMatch);
    assert!(e.timestamp.len() >= 19 && e.timestamp.contains('T'), "{}", e.timestamp);
}


#[test]
fn star_dot_alias_holds_beyond_ascii() {
    for host in ["école.fr", "a.école.fr", "ÉCOLE.FR", "xécole.fr", "école.fr.evil.io"] {
        assert_eq!(
            host_pattern_matches("*.École.fr", host),
            host_pattern_matches("École.fr", host),
            "{host}"
        );
    }
    assert!(host_pattern_matches("*.École.fr", "a.école.fr"));
    assert!(!host_pattern_matches("*.École.fr", "xécole.fr"));
}

#[test]
fn shortcut_script_quotes_every_path() {
    assert_eq!(
        shortcut_script(r"C:\U\it's\Linkport.lnk", r"C:\L\linkport.exe", r"C:\L"),
        r"$s = New-Object -ComObject WScript.Shell; $l = $s.CreateShortcut('C:\U\it''s\Linkport.lnk'); $l.TargetPath = 'C:\L\linkport.exe'; $l.Arguments = 'serve'; $l.WorkingDirectory = 'C:\L'; $l.Description = 'Linkport portal daemon'; $l.Save()"
    );
}

#[test]
fn dangling_default_picks_the_least_matching_id() {
    let mut c = cfg(vec![], Some("ghost"));
    c.browsers.insert("zz".into(), browser("firefox"));
    c.browsers.insert("aa".into(), browser("firefox"));
    assert_eq!(resolve_default(&c, Some("/usr/bin/firefox")).as_deref(), Some("aa"));
    assert_eq!(resolve_default(&c, Some("/usr/bin/chrome")).as_deref(), Some("chrome"));
    assert_eq!(resolve_default(&c, None).as_deref(), Some("aa"));
}

#[test]
fn stored_tokens_read_back_unchanged() {
    let bytes = [0u8, 1, 0xab, 0xff, 0x10, 0x9c];
    let t = hex_token(&bytes);
    assert_eq!(t, "0001abff109c");
    assert_eq!(token_from_file(&format!("{t}\n")).as_deref(), Some(t.as_str()));
    assert_eq!(hex_token(&[7u8; 24]).len(), 48);
}
