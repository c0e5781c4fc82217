use linkport::api::{resolve_default, same_exe};
use linkport::config::{Browser, BrowserMap, Config, Rule};
use linkport::launcher::parse_command_template;
use linkport::validate::validate;

#[test]
fn validate_flags_unknown_target() {
    let mut cfg = Config::default();
    cfg.rules.push(Rule {
        name: "r".into(),
        enabled: true,
        host_glob: None,
        url_contains: None,
        url_regex: None,
        scheme: None,
        target: "ghost".into(),
        incognito: false,
    });
    let warnings = validate(&cfg);
    assert!(warnings.iter().any(|w| w.contains("unknown browser")));
    assert!(warnings
        .iter()
        .any(|w| w.contains("no browsers configured")));
}

#[test]
fn resolved_args_substitutes_and_appends() {
    let b = Browser {
        display_name: "X".into(),
        exe: "x".into(),
        args: vec!["--new-window".into(), "{url}".into()],
        incognito_args: Some(vec!["--private".into()]),
    };
    assert_eq!(
        b.resolved_args("https://a.b", false),
        vec!["--new-window", "https://a.b"]
    );
    // incognito template without {url} -> url appended
    assert_eq!(
        b.resolved_args("https://a.b", true),
        vec!["--private", "https://a.b"]
    );

    let plain = Browser {
        args: vec![],
        exe: "x".into(),
        display_name: "X".into(),
        incognito_args: None,
    };
    assert_eq!(plain.resolved_args("u://1", false), vec!["u://1"]);
}

#[test]
fn parses_firefox_registry_command() {
    let (exe, args) = parse_command_template(
        r#""C:\Program Files\Mozilla Firefox\firefox.exe" -osint -url "%1""#,
    );
    assert_eq!(exe, r"C:\Program Files\Mozilla Firefox\firefox.exe");
    assert_eq!(args, vec!["-osint", "-url", "{url}"]);
}

#[test]
fn parses_chromium_registry_command() {
    let (exe, args) = parse_command_template(
        r#""C:\Program Files\Google\Chrome\Application\chrome.exe" --single-argument %1"#,
    );
    assert_eq!(
        exe,
        r"C:\Program Files\Google\Chrome\Application\chrome.exe"
    );
    assert_eq!(args, vec!["--single-argument", "{url}"]);
}

#[test]
fn appends_url_when_template_has_no_placeholder() {
    let (exe, args) = parse_command_template(r#""C:\b.exe""#);
    assert_eq!(exe, r"C:\b.exe");
    assert_eq!(args, vec!["{url}"]);
}

#[test]
fn parses_unquoted_exe() {
    let (exe, args) = parse_command_template("/usr/bin/firefox %u");
    assert_eq!(exe, "/usr/bin/firefox");
    assert_eq!(args, vec!["{url}"]);
}

fn browsers(ids: &[&str]) -> BrowserMap {
    let mut m = BrowserMap::new();
    for id in ids {
        m.insert(
            id.to_string(),
            Browser {
                display_name: id.to_string(),
                exe: format!(r"C:\Apps\{id}.exe"),
                args: vec!["{url}".into()],
                incognito_args: None,
            },
        );
    }
    m
}

#[test]
fn resolve_keeps_valid_default() {
    let mut cfg = Config::default();
    cfg.browsers = browsers(&["brave", "chrome"]);
    cfg.default_browser = Some("chrome".into());
    assert_eq!(resolve_default(&cfg, None).as_deref(), Some("chrome"));
}

#[test]
fn resolve_ghost_or_missing_default_falls_back_to_first() {
    let mut cfg = Config::default();
    cfg.browsers = browsers(&["brave", "chrome"]);
    cfg.default_browser = Some("ghost".into());
    assert_eq!(resolve_default(&cfg, None).as_deref(), Some("brave"));

    cfg.default_browser = None;
    assert_eq!(
        resolve_default(&cfg, None).as_deref(),
        Some("brave"),
        "no system default detectable on this host -> first configured"
    );
}

#[test]
fn resolve_no_browsers_stays_none() {
    let cfg = Config::default();
    assert_eq!(resolve_default(&cfg, None), None);
}

#[test]
fn same_exe_matches_case_and_slashes() {
    assert!(same_exe(
        r"C:\Program Files\Google\Chrome\Application\chrome.exe",
        "c:/program files/google/chrome/application/CHROME.exe "
    ));
    assert!(!same_exe(r"C:\a\chrome.exe", r"C:\a\msedge.exe"));
}
