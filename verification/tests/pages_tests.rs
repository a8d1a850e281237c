use jas::pages::{
    account_option_label, accounts_need_refetch, accounts_view, app_action, apps_need_refetch, apps_view, can_install,
    config_error_text, device_error_text, devices_need_refetch, devices_view, install_alert, job_error_text,
    reconcile_alert, refresh_alert, register_alert, register_label, revoke_alert, shows_interface_row, AppAction,
    InstallState, ListView, delete_app_prompt, delete_device_prompt, device_href,
    enabled_text, installed_label, interval_text, reconcile_notice, refresh_toggle, refresh_window_text,
    register_disabled, remove_account_prompt, revoke_certs_prompt, revoked_notice, team_cell,
};
use jas::text::{data_url_payload, decimal_text, signed_decimal_text};

#[test]
fn decimal_numbers() {
    assert_eq!(decimal_text(0), "0");
    assert_eq!(decimal_text(7), "7");
    assert_eq!(decimal_text(1234567890), "1234567890");
    assert_eq!(decimal_text(u64::MAX), u64::MAX.to_string());
    assert_eq!(signed_decimal_text(-42), "-42");
    assert_eq!(signed_decimal_text(i64::MIN), i64::MIN.to_string());
    assert_eq!(signed_decimal_text(3), "3");
}

#[test]
fn data_url_payload_is_second_field() {
    assert_eq!(data_url_payload("data:application/octet-stream;base64,AAAA").as_deref(), Some("AAAA"));
    assert_eq!(data_url_payload("data:,").as_deref(), Some(""));
    assert_eq!(data_url_payload("a,b,c").as_deref(), Some("b"));
    assert_eq!(data_url_payload("no comma"), None);
    assert_eq!(data_url_payload("é,ü,x").as_deref(), Some("ü"));
}

#[test]
fn account_prompts() {
    assert_eq!(
        remove_account_prompt("me@example.com"),
        "Remove account \"me@example.com\" from JAS? Installed apps signed with this account will keep running until their certs expire."
    );
    assert_eq!(
        revoke_certs_prompt("me@example.com"),
        "Revoke ALL iOS development certificates for \"me@example.com\"? Apps signed with the revoked cert will stop working until you reinstall them."
    );
    assert_eq!(revoked_notice(2), "Revoked 2 iOS development certificate(s). You can now install apps again.");
}

#[test]
fn team_cells_and_labels() {
    assert_eq!(team_cell(None, None), ("-".to_string(), None));
    assert_eq!(team_cell(Some("Team".into()), Some("ABC123".into())), ("Team".to_string(), Some(" (ABC123)".to_string())));
    assert_eq!(account_option_label("me@example.com", Some("Team".into())), "me@example.com (Team)");
    assert_eq!(account_option_label("me@example.com", None), "me@example.com");
}

#[test]
fn device_and_app_texts() {
    assert_eq!(
        delete_device_prompt("iPhone"),
        "Delete device \"iPhone\"? This removes it from JAS but does not touch the device itself."
    );
    assert_eq!(device_href("d-1"), "/devices/d-1");
    assert_eq!(delete_app_prompt("Delta"), "Delete \"Delta\" from this device?");
}

#[test]
fn reconcile_notices() {
    assert_eq!(reconcile_notice(0), "In sync with device.");
    assert_eq!(reconcile_notice(1), "Removed 1 stale entry.");
    assert_eq!(reconcile_notice(12), "Removed 12 stale entries.");
}

#[test]
fn installed_dates() {
    assert_eq!(installed_label(None), "-");
    assert_eq!(installed_label(Some(0)), "1970-01-01");
    assert_eq!(installed_label(Some(1_700_000_000)), "2023-11-14");
    assert_eq!(installed_label(Some(i64::MAX)), "-");
}

#[test]
fn toggles_and_buttons() {
    let on = refresh_toggle(true);
    assert_eq!((on.next_value, on.class, on.label), ("false", "btn btn-sm btn-success", "ON"));
    let off = refresh_toggle(false);
    assert_eq!((off.next_value, off.class, off.label), ("true", "btn btn-sm btn-secondary", "OFF"));
    assert!(can_install("UEsDBA==", "acct"));
    assert!(!can_install("", "acct"));
    assert!(!can_install("UEsDBA==", ""));
    assert!(register_disabled("", false));
    assert!(register_disabled("abc", true));
    assert!(!register_disabled("abc", false));
}

#[test]
fn refetch_after_the_right_actions() {
    assert!(!accounts_need_refetch(0));
    assert!(accounts_need_refetch(1));
    assert!(!devices_need_refetch(0, 0));
    assert!(devices_need_refetch(0, 2));
    assert!(devices_need_refetch(1, 0));
    assert!(!apps_need_refetch(0, 0, 0, 0));
    assert!(apps_need_refetch(0, 0, 0, 1));
    assert!(apps_need_refetch(0, 4, 0, 0));
}

#[test]
fn register_alerts_and_label() {
    let a = register_alert(true, Some(Ok("d1".into()))).unwrap();
    assert_eq!((a.class, a.text.as_str()), ("alert alert-info", "Connecting to device. This can take a few seconds..."));
    let a = register_alert(false, Some(Ok("d1".into()))).unwrap();
    assert_eq!((a.class, a.text.as_str()), ("alert alert-success", "Device registered (ID: d1)"));
    let a = register_alert(false, Some(Err("timeout".into()))).unwrap();
    assert_eq!((a.class, a.text.as_str()), ("alert alert-error", "Error: timeout"));
    assert!(register_alert(false, None).is_none());
    assert_eq!(register_label(true), "Registering…");
    assert_eq!(register_label(false), "Register");
}

#[test]
fn install_outcome_is_tracked() {
    let mut state = InstallState::new();
    assert!(state.store);
    assert_eq!(state.active_job, None);
    assert!(!state.record_outcome(&None));
    assert!(!state.record_outcome(&Some(Err("bad ipa".into()))));
    assert_eq!(state.active_job, None);
    assert!(state.record_outcome(&Some(Ok("job-7".into()))));
    assert_eq!(state.active_job.as_deref(), Some("job-7"));
    let ok = install_alert(&Ok("job-7".into()));
    assert_eq!((ok.class, ok.text.as_str()), ("alert alert-success", "Install queued."));
    let err = install_alert(&Err("bad ipa".into()));
    assert_eq!((err.class, err.text.as_str()), ("alert alert-error", "Install error: bad ipa"));
}

#[test]
fn result_alerts() {
    let a = reconcile_alert(Ok(0));
    assert_eq!((a.class, a.text.as_str()), ("alert alert-success", "In sync with device."));
    let a = reconcile_alert(Ok(3));
    assert_eq!(a.text, "Removed 3 stale entries.");
    let a = reconcile_alert(Err("offline".into()));
    assert_eq!((a.class, a.text.as_str()), ("alert alert-error", "Sync error: offline"));
    assert_eq!(refresh_alert(&Ok("j".into())).text, "Refresh queued.");
    assert_eq!(refresh_alert(&Err("x".into())).text, "Refresh error: x");
    assert_eq!(revoke_alert(Ok(1)).text, "Revoked 1 iOS development certificate(s). You can now install apps again.");
    let a = revoke_alert(Err("denied".into()));
    assert_eq!((a.class, a.text.as_str()), ("alert alert-error", "Revoke failed: denied"));
    assert_eq!(device_error_text("gone"), "Device error: gone");
    assert_eq!(job_error_text("gone"), "Job error: gone");
    assert_eq!(config_error_text("gone"), "Error loading config: gone");
}

#[test]
fn list_views() {
    assert!(matches!(accounts_view(Ok(0)), ListView::Empty("No accounts added yet.")));
    assert!(matches!(devices_view(Ok(0)), ListView::Empty("No devices registered.")));
    assert!(matches!(apps_view(Ok(0)), ListView::Empty("No apps installed on this device.")));
    assert!(matches!(apps_view(Ok(2)), ListView::Rows));
    match accounts_view(Err("db".into())) {
        ListView::Failed(t) => assert_eq!(t, "Error: db"),
        _ => panic!("expected an error view"),
    }
}

#[test]
fn app_actions_and_interface_row() {
    assert!(matches!(app_action(true), AppAction::Refresh));
    assert!(matches!(app_action(false), AppAction::NoIpa));
    assert!(shows_interface_row("en0"));
    assert!(!shows_interface_row(""));
}

#[test]
fn settings_texts() {
    assert_eq!(interval_text(2), "Every 2 hours");
    assert_eq!(refresh_window_text(3), "3 days before expiry");
    assert_eq!(refresh_window_text(-1), "-1 days before expiry");
    assert_eq!(enabled_text(true), "Yes");
    assert_eq!(enabled_text(false), "No");
}
