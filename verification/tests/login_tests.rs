use jas::login::LoginFlow;

#[test]
fn sign_in_without_second_factor() {
    let mut flow = LoginFlow::new();
    assert_eq!(flow.submit_label(), "Sign In");
    flow.begin_sign_in();
    assert!(flow.pending);
    assert_eq!(flow.submit_label(), "Signing in...");
    assert!(flow.finish_sign_in(Ok(("key".to_string(), false))));
    assert!(!flow.pending);
    assert!(!flow.shows_code_form());
}

#[test]
fn sign_in_with_second_factor() {
    let mut flow = LoginFlow::new();
    flow.begin_sign_in();
    assert!(!flow.finish_sign_in(Ok(("session".to_string(), true))));
    assert!(flow.shows_code_form());
    assert_eq!(flow.submit_label(), "Submit Code");
    assert_eq!(flow.begin_code().as_deref(), Some("session"));
    assert_eq!(flow.submit_label(), "Verifying...");
    assert!(!flow.finish_code(Err("bad code".to_string())));
    assert_eq!(flow.error.as_deref(), Some("bad code"));
    assert!(flow.shows_code_form());
    assert_eq!(flow.begin_code().as_deref(), Some("session"));
    assert_eq!(flow.error, None);
    assert!(flow.finish_code(Ok(())));
    assert!(!flow.shows_code_form());
    assert!(!flow.pending);
}

#[test]
fn failed_sign_in_keeps_message() {
    let mut flow = LoginFlow::new();
    flow.begin_sign_in();
    assert!(!flow.finish_sign_in(Err("wrong password".to_string())));
    assert_eq!(flow.error.as_deref(), Some("wrong password"));
    assert!(!flow.pending);
    flow.begin_sign_in();
    assert_eq!(flow.error, None);
}

#[test]
fn code_without_session_does_nothing() {
    let mut flow = LoginFlow::new();
    assert_eq!(flow.begin_code(), None);
    assert!(!flow.pending);
}
