use linkport::update::{is_newer, strip_v, tray_action_text, tray_status_text, UpdateCheck};

#[test]
fn compares_versions_numerically() {
    assert!(is_newer("0.3.0", "0.2.1"));
    assert!(is_newer("1.0.0", "0.9.9"));
    assert!(is_newer("0.2.10", "0.2.9"));
    assert!(is_newer("0.3", "0.2.9"));
    assert!(!is_newer("0.2.1", "0.2.1"));
    assert!(!is_newer("0.2.0", "0.2.1"));
    assert!(!is_newer("0.2", "0.2.0"));
}

#[test]
fn strips_v_prefix() {
    assert_eq!(strip_v("v0.3.0"), "0.3.0");
    assert_eq!(strip_v("0.3.0"), "0.3.0");
    assert_eq!(strip_v(" V1.2.3 "), "1.2.3");
}

#[test]
fn check_result_shapes() {
    let ok = UpdateCheck::succeeded("0.2.1", "0.3.0".into());
    assert!(ok.available);
    assert_eq!(ok.latest.as_deref(), Some("0.3.0"));
    assert!(ok.error.is_none());

    let same = UpdateCheck::succeeded("0.2.1", "0.2.1".into());
    assert!(!same.available);

    let err = UpdateCheck::failed("0.2.1", "offline".into());
    assert!(!err.available);
    assert!(err.latest.is_none());
    assert_eq!(err.error.as_deref(), Some("offline"));
}

#[test]
fn tray_labels_follow_the_check_result() {
    assert_eq!(tray_action_text(None), "Check for updates…");
    assert_eq!(tray_status_text(None), "No update check yet");

    let available = UpdateCheck::succeeded("0.2.1", "0.3.0".into());
    assert_eq!(
        tray_action_text(Some(&available)),
        "Download Linkport v0.3.0…"
    );
    assert_eq!(
        tray_status_text(Some(&available)),
        "v0.3.0 available (running v0.2.1)"
    );

    let fresh = UpdateCheck::succeeded("0.2.1", "0.2.1".into());
    assert_eq!(tray_action_text(Some(&fresh)), "Check for updates…");
    assert_eq!(tray_status_text(Some(&fresh)), "Up to date (v0.2.1)");

    let failed = UpdateCheck::failed("0.2.1", "no dns".into());
    assert_eq!(tray_action_text(Some(&failed)), "Check for updates…");
    assert_eq!(tray_status_text(Some(&failed)), "Update check failed");
}
