use jas::jobs::{job_badge_class, job_finished, job_is_done, job_is_running, next_poll_delay_ms, running_stage, DoneLatch};

#[test]
fn final_statuses() {
    assert!(job_is_done(&"done".to_string()));
    assert!(job_is_done(&"failed".to_string()));
    assert!(!job_is_done(&"running".to_string()));
    assert!(!job_is_done(&"queued".to_string()));
    assert!(job_is_running(&"running".to_string()));
    assert!(!job_is_running(&"done".to_string()));
}

#[test]
fn polling_stops_only_when_loaded_and_final() {
    assert!(!job_finished(None));
    assert!(!job_finished(Some(&"running".to_string())));
    assert!(job_finished(Some(&"failed".to_string())));
}

#[test]
fn badge_classes() {
    assert_eq!(job_badge_class(&"done".to_string()), "job-badge job-done");
    assert_eq!(job_badge_class(&"failed".to_string()), "job-badge job-failed");
    assert_eq!(job_badge_class(&"running".to_string()), "job-badge job-running");
    assert_eq!(job_badge_class(&"queued".to_string()), "job-badge job-queued");
    assert_eq!(job_badge_class(&"".to_string()), "job-badge job-queued");
}

#[test]
fn latch_fires_once_at_first_finish() {
    let mut latch = DoneLatch::new();
    let fires: Vec<bool> = [false, false, true, true, false, true].iter().map(|d| latch.observe(*d)).collect();
    assert_eq!(fires, vec![false, false, true, false, false, false]);
    let mut never = DoneLatch::new();
    assert!(!never.observe(false));
    assert!(!never.fired);
}

#[test]
fn polling_every_two_seconds_until_finished() {
    assert_eq!(next_poll_delay_ms(None), Some(2000));
    assert_eq!(next_poll_delay_ms(Some(&"queued".to_string())), Some(2000));
    assert_eq!(next_poll_delay_ms(Some(&"done".to_string())), None);
    assert_eq!(next_poll_delay_ms(Some(&"failed".to_string())), None);
}

#[test]
fn stage_only_while_running() {
    assert_eq!(running_stage(&"running".to_string(), Some("signing".into())).as_deref(), Some("signing"));
    assert_eq!(running_stage(&"running".to_string(), None), None);
    assert_eq!(running_stage(&"queued".to_string(), Some("signing".into())), None);
}
