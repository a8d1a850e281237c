//! Progress of a background job (install or refresh) as the device page
//! follows it: when the job is finished, how its status is shown, and the
//! one-shot notification sent when it finishes.

use vstd::prelude::*;

verus! {

/// A job is finished once its status is `done` or `failed`.
pub open spec fn status_is_final(status: Seq<char>) -> bool {
    status == "done"@ || status == "failed"@
}

/// Whether a job with this status is finished.
pub fn job_is_done(status: &String) -> (done: bool)
    ensures
        done == status_is_final(status@),
        done <==> (status@ == "done"@ || status@ == "failed"@),
{
    let done_text = String::from_str("done");
    let failed_text = String::from_str("failed");
    *status == done_text || *status == failed_text
}

/// Whether a job with this status is running (its stage and progress bar
/// are shown only then).
pub fn job_is_running(status: &String) -> (running: bool)
    ensures
        running == (status@ == "running"@),
{
    let running_text = String::from_str("running");
    *status == running_text
}

/// The page's view of the job: finished only when its status was loaded and
/// is final. While it is not finished the page polls again.
pub fn job_finished(loaded_status: Option<&String>) -> (finished: bool)
    ensures
        finished == (match loaded_status {
            Some(s) => status_is_final(s@),
            None => false,
        }),
{
    match loaded_status {
        Some(s) => job_is_done(s),
        None => false,
    }
}

/// The delay, in milliseconds, before the job is fetched again: two seconds
/// while it is not finished, and no further fetch once it is.
pub fn next_poll_delay_ms(loaded_status: Option<&String>) -> (delay: Option<u32>)
    ensures
        delay == (if (match loaded_status {
            Some(s) => status_is_final(s@),
            None => false,
        }) {
            None
        } else {
            Some(2000u32)
        }),
{
    if job_finished(loaded_status) {
        None
    } else {
        Some(2000)
    }
}

/// The stage shown next to the badge: only while the job runs, and only
/// when it reports one.
pub fn running_stage(status: &String, stage: Option<String>) -> (shown: Option<String>)
    ensures
        match shown {
            Some(s) => status@ == "running"@ && (stage matches Some(t) && s@ == t@),
            None => status@ != "running"@ || stage is None,
        },
{
    if job_is_running(status) {
        stage
    } else {
        None
    }
}

/// The CSS class of the status badge.
pub open spec fn badge_class_of(status: Seq<char>) -> Seq<char> {
    if status == "done"@ {
        "job-badge job-done"@
    } else if status == "failed"@ {
        "job-badge job-failed"@
    } else if status == "running"@ {
        "job-badge job-running"@
    } else {
        "job-badge job-queued"@
    }
}

/// The CSS class of the status badge for a job with this status.
pub fn job_badge_class(status: &String) -> (class: &'static str)
    ensures
        class@ == badge_class_of(status@),
        status@ == "done"@ ==> class@ == "job-badge job-done"@,
        status@ == "failed"@ ==> class@ == "job-badge job-failed"@,
        status@ == "running"@ ==> class@ == "job-badge job-running"@,
        status@ != "done"@ && status@ != "failed"@ && status@ != "running"@ ==> class@ == "job-badge job-queued"@,
{
    proof {
        lemma_status_words_distinct();
    }
    if *status == String::from_str("done") {
        "job-badge job-done"
    } else if *status == String::from_str("failed") {
        "job-badge job-failed"
    } else if *status == String::from_str("running") {
        "job-badge job-running"
    } else {
        "job-badge job-queued"
    }
}

/// One observation of the latch: from whether it has fired and whether the
/// job is now finished, whether it has fired afterwards and whether it
/// fires now.
pub open spec fn latch_step(fired: bool, finished: bool) -> (bool, bool) {
    (fired || finished, finished && !fired)
}

/// How many times the latch fires over a run of observations.
pub open spec fn fire_count(fired: bool, observations: Seq<bool>) -> nat
    decreases observations.len(),
{
    if observations.len() == 0 {
        0
    } else {
        let (after, fires) = latch_step(fired, observations[0]);
        (if fires { 1nat } else { 0nat }) + fire_count(after, observations.drop_first())
    }
}

/// Calls the completion callback once, on the first observation that the
/// job is finished.
pub struct DoneLatch {
    pub fired: bool,
}

impl DoneLatch {
    pub fn new() -> (l: DoneLatch)
        ensures
            !l.fired,
    {
        DoneLatch { fired: false }
    }

    /// Records one observation; true when the callback must run now.
    pub fn observe(&mut self, finished: bool) -> (fire: bool)
        ensures
            (final(self).fired, fire) == latch_step(old(self).fired, finished),
    {
        if finished && !self.fired {
            self.fired = true;
            true
        } else {
            false
        }
    }
}

/// Once fired, the latch never fires again.
proof fn lemma_fired_stays_silent(observations: Seq<bool>)
    ensures
        fire_count(true, observations) == 0,
    decreases observations.len(),
{
    if observations.len() > 0 {
        lemma_fired_stays_silent(observations.drop_first());
    }
}

/// Over any run of observations, starting unfired, the latch fires exactly
/// once if the job is ever seen finished, and never otherwise.
pub proof fn law_done_fires_once(observations: Seq<bool>)
    ensures
        fire_count(false, observations) == (if observations.contains(true) { 1nat } else { 0nat }),
    decreases observations.len(),
{
    if observations.len() > 0 {
        let rest = observations.drop_first();
        if observations[0] {
            lemma_fired_stays_silent(rest);
            assert(observations.contains(true)) by {
                assert(observations[0] == true);
            }
        } else {
            law_done_fires_once(rest);
            assert(observations.contains(true) == rest.contains(true)) by {
                if rest.contains(true) {
                    let i = choose|i: int| 0 <= i < rest.len() && rest[i] == true;
                    assert(observations[i + 1] == true);
                }
                if observations.contains(true) {
                    let i = choose|i: int| 0 <= i < observations.len() && observations[i] == true;
                    assert(rest[i - 1] == true);
                }
            }
        }
    }
}


proof fn lemma_status_words_distinct()
    ensures
        "done"@ != "failed"@,
        "done"@ != "running"@,
        "failed"@ != "running"@,
{
    reveal_strlit("done");
    reveal_strlit("failed");
    reveal_strlit("running");
    assert("done"@.len() == 4);
    assert("failed"@.len() == 6);
    assert("running"@.len() == 7);
}

/// A job is finished exactly when its status is `done` or `failed`; the badge
/// names the status for those two and for `running`, and shows any other
/// status as queued.
pub proof fn law_job_status(status: Seq<char>)
    ensures
        status_is_final(status) <==> (status == "done"@ || status == "failed"@),
        status == "done"@ ==> badge_class_of(status) == "job-badge job-done"@,
        status == "failed"@ ==> badge_class_of(status) == "job-badge job-failed"@,
        status == "running"@ ==> badge_class_of(status) == "job-badge job-running"@,
        status != "done"@ && status != "failed"@ && status != "running"@ ==> badge_class_of(status) == "job-badge job-queued"@,
{
    lemma_status_words_distinct();
}

/// A single observation fires the latch exactly when the job is finished and
/// the latch had not fired; afterwards it has fired if it had before or the
/// job is finished.
pub proof fn law_latch_step(fired: bool, finished: bool)
    ensures
        latch_step(fired, finished).1 == (finished && !fired),
        latch_step(fired, finished).0 == (fired || finished),
{
}

} // verus!
