//! What the web pages compute before they render: confirmation prompts,
//! labels, result messages and whether a form may be submitted.

use vstd::prelude::*;
use crate::text::{decimal_digits, signed_decimal, decimal_text, signed_decimal_text};

verus! {

/// The prompt before an Apple account is removed.
pub fn remove_account_prompt(apple_id: &str) -> (msg: String)
    ensures
        msg@ == "Remove account \""@ + apple_id@
            + "\" from JAS? Installed apps signed with this account will keep running until their certs expire."@,
{
    let mut msg = String::from_str("Remove account \"");
    msg.append(apple_id);
    msg.append("\" from JAS? Installed apps signed with this account will keep running until their certs expire.");
    msg
}

/// The prompt before every development certificate of an account is revoked.
pub fn revoke_certs_prompt(apple_id: &str) -> (msg: String)
    ensures
        msg@ == "Revoke ALL iOS development certificates for \""@ + apple_id@
            + "\"? Apps signed with the revoked cert will stop working until you reinstall them."@,
{
    let mut msg = String::from_str("Revoke ALL iOS development certificates for \"");
    msg.append(apple_id);
    msg.append("\"? Apps signed with the revoked cert will stop working until you reinstall them.");
    msg
}

/// The notice after certificates were revoked.
pub fn revoked_notice(count: u64) -> (msg: String)
    ensures
        msg@ == "Revoked "@ + decimal_digits(count as nat)
            + " iOS development certificate(s). You can now install apps again."@,
{
    let mut msg = String::from_str("Revoked ");
    let n = decimal_text(count);
    msg.append(n.as_str());
    msg.append(" iOS development certificate(s). You can now install apps again.");
    msg
}

/// The team cell of an account row: the team name, `-` when there is none,
/// and the team id in brackets when there is one.
pub fn team_cell(team_name: Option<String>, team_id: Option<String>) -> (cell: (String, Option<String>))
    ensures
        cell.0@ == (match team_name {
            Some(t) => t@,
            None => "-"@,
        }),
        match team_id {
            Some(id) => cell.1 matches Some(s) && s@ == " ("@ + id@ + ")"@,
            None => cell.1 is None,
        },
{
    let name = match team_name {
        Some(t) => t,
        None => String::from_str("-"),
    };
    let id = match team_id {
        Some(id) => {
            let mut s = String::from_str(" (");
            s.append(id.as_str());
            s.append(")");
            Some(s)
        },
        None => None,
    };
    (name, id)
}

/// The label of an account in the install form: the Apple ID, followed by
/// the team name in brackets when there is one.
pub fn account_option_label(apple_id: &str, team_name: Option<String>) -> (label: String)
    ensures
        label@ == (match team_name {
            Some(t) => apple_id@ + " ("@ + t@ + ")"@,
            None => apple_id@,
        }),
{
    let mut label = String::from_str(apple_id);
    match team_name {
        Some(t) => {
            label.append(" (");
            label.append(t.as_str());
            label.append(")");
        },
        None => {},
    }
    label
}

/// The prompt before a device is deleted.
pub fn delete_device_prompt(name: &str) -> (msg: String)
    ensures
        msg@ == "Delete device \""@ + name@
            + "\"? This removes it from JAS but does not touch the device itself."@,
{
    let mut msg = String::from_str("Delete device \"");
    msg.append(name);
    msg.append("\"? This removes it from JAS but does not touch the device itself.");
    msg
}

/// The link to a device's page.
pub fn device_href(id: &str) -> (href: String)
    ensures
        href@ == "/devices/"@ + id@,
{
    let mut href = String::from_str("/devices/");
    href.append(id);
    href
}

/// The prompt before an app is deleted from a device.
pub fn delete_app_prompt(display_name: &str) -> (msg: String)
    ensures
        msg@ == "Delete \""@ + display_name@ + "\" from this device?"@,
{
    let mut msg = String::from_str("Delete \"");
    msg.append(display_name);
    msg.append("\" from this device?");
    msg
}

/// The text of the notice after the app list was synced.
pub open spec fn reconcile_notice_text(removed: u64) -> Seq<char> {
    if removed == 0 {
        "In sync with device."@
    } else {
        "Removed "@ + decimal_digits(removed as nat) + " stale entr"@
            + (if removed == 1 { "y"@ } else { "ies"@ }) + "."@
    }
}

/// The sync notice, said over the count: "In sync with device." exactly when
/// nothing was removed; otherwise "Removed N stale entry." for one entry and
/// "Removed N stale entries." for more, with N in decimal.
pub proof fn law_reconcile_notice(removed: u64)
    ensures
        removed == 0 ==> reconcile_notice_text(removed) == "In sync with device."@,
        removed > 0 ==> reconcile_notice_text(removed) == "Removed "@ + decimal_digits(removed as nat) + " stale entr"@
            + (if removed == 1 { "y"@ } else { "ies"@ }) + "."@,
        reconcile_notice_text(removed) == "In sync with device."@ <==> removed == 0,
{
    if removed > 0 {
        reveal_strlit("In sync with device.");
        reveal_strlit("Removed ");
        let t = reconcile_notice_text(removed);
        let rest = decimal_digits(removed as nat) + " stale entr"@ + (if removed == 1 { "y"@ } else { "ies"@ }) + "."@;
        assert(t == "Removed "@ + rest);
        assert(t[0] == 'R');
        assert("In sync with device."@[0] == 'I');
    }
}

/// The notice after the app list was synced from the device.
pub fn reconcile_notice(removed: u64) -> (msg: String)
    ensures
        msg@ == reconcile_notice_text(removed),
        removed == 0 ==> msg@ == "In sync with device."@,
        removed > 0 ==> msg@ == "Removed "@ + decimal_digits(removed as nat) + " stale entr"@
            + (if removed == 1 { "y"@ } else { "ies"@ }) + "."@,
        msg@ == "In sync with device."@ <==> removed == 0,
{
    proof {
        law_reconcile_notice(removed);
    }
    if removed == 0 {
        return String::from_str("In sync with device.");
    }
    let mut msg = String::from_str("Removed ");
    let n = decimal_text(removed);
    msg.append(n.as_str());
    msg.append(" stale entr");
    if removed == 1 {
        msg.append("y");
    } else {
        msg.append("ies");
    }
    msg.append(".");
    msg
}

/// What `chrono` prints for a Unix time as a UTC calendar date
/// (`%Y-%m-%d`), or nothing when the time is out of its range.
pub uninterp spec fn utc_date_text(ts: i64) -> Option<Seq<char>>;

/// Calls `chrono::DateTime::from_timestamp(ts, 0)` and formats the result
/// with `%Y-%m-%d`. The text is claimed to be a function of `ts` alone,
/// named `utc_date_text`; which date it is, and the range in which
/// `from_timestamp` succeeds, are not stated.
#[verifier::external_body]
fn format_utc_date(ts: i64) -> (date: Option<String>)
    ensures
        match date {
            Some(d) => utc_date_text(ts) == Some(d@),
            None => utc_date_text(ts) is None,
        },
{
    chrono::DateTime::from_timestamp(ts, 0).map(|d| d.format("%Y-%m-%d").to_string())
}

/// The install date of an app: its UTC calendar date, or `-` when it is
/// unknown or out of range.
pub fn installed_label(installed_at: Option<i64>) -> (label: String)
    ensures
        label@ == (match installed_at {
            Some(ts) => match utc_date_text(ts) {
                Some(d) => d,
                None => "-"@,
            },
            None => "-"@,
        }),
{
    let date = match installed_at {
        Some(ts) => format_utc_date(ts),
        None => None,
    };
    match date {
        Some(d) => d,
        None => String::from_str("-"),
    }
}

/// The auto-refresh switch of an app row: the value the form sends (the
/// opposite of the current setting), the button class and its label.
pub struct RefreshToggle {
    pub next_value: &'static str,
    pub class: &'static str,
    pub label: &'static str,
}

pub fn refresh_toggle(enabled: bool) -> (t: RefreshToggle)
    ensures
        t.next_value@ == (if enabled { "false"@ } else { "true"@ }),
        t.class@ == (if enabled { "btn btn-sm btn-success"@ } else { "btn btn-sm btn-secondary"@ }),
        t.label@ == (if enabled { "ON"@ } else { "OFF"@ }),
{
    if enabled {
        RefreshToggle { next_value: "false", class: "btn btn-sm btn-success", label: "ON" }
    } else {
        RefreshToggle { next_value: "true", class: "btn btn-sm btn-secondary", label: "OFF" }
    }
}

/// The install button is enabled once an IPA was read and an account chosen.
pub fn can_install(ipa_b64: &str, account_id: &str) -> (ok: bool)
    ensures
        ok == (ipa_b64@.len() > 0 && account_id@.len() > 0),
{
    !ipa_b64.is_empty() && !account_id.is_empty()
}

/// The register button is disabled until a pairing file was read, and while
/// a registration is in flight.
pub fn register_disabled(pairing_b64: &str, pending: bool) -> (disabled: bool)
    ensures
        disabled == (pairing_b64@.len() == 0 || pending),
{
    pairing_b64.is_empty() || pending
}

/// The account list is fetched again once an account was removed (a
/// certificate revocation does not change it).
pub fn accounts_need_refetch(delete_version: usize) -> (refetch: bool)
    ensures
        refetch == (delete_version > 0),
{
    delete_version > 0
}

/// The device list is fetched again once a device was deleted or registered.
pub fn devices_need_refetch(delete_version: usize, register_version: usize) -> (refetch: bool)
    ensures
        refetch == (delete_version > 0 || register_version > 0),
{
    delete_version > 0 || register_version > 0
}

/// A device's app list is fetched again once an app was refreshed, had its
/// auto-refresh switched, was deleted, or the list was synced.
pub fn apps_need_refetch(refresh_version: usize, toggle_version: usize, delete_version: usize, reconcile_version: usize) -> (refetch: bool)
    ensures
        refetch == (refresh_version > 0 || toggle_version > 0 || delete_version > 0 || reconcile_version > 0),
{
    refresh_version > 0 || toggle_version > 0 || delete_version > 0 || reconcile_version > 0
}

/// A notice shown at the top of a section: its CSS class and its text.
pub struct Alert {
    pub class: &'static str,
    pub text: String,
}

pub open spec fn success_class() -> Seq<char> {
    "alert alert-success"@
}

pub open spec fn error_class() -> Seq<char> {
    "alert alert-error"@
}

fn prefixed(prefix: &str, text: &str) -> (s: String)
    ensures
        s@ == prefix@ + text@,
{
    let mut s = String::from_str(prefix);
    s.append(text);
    s
}

/// The notice of the register form: a progress note while the request is in
/// flight, then the new device's id or the error.
pub fn register_alert(pending: bool, outcome: Option<Result<String, String>>) -> (alert: Option<Alert>)
    ensures
        pending ==> (alert matches Some(a) && a.class@ == "alert alert-info"@
            && a.text@ == "Connecting to device. This can take a few seconds..."@),
        !pending ==> match outcome {
            None => alert is None,
            Some(Ok(id)) => alert matches Some(a) && a.class@ == success_class()
                && a.text@ == "Device registered (ID: "@ + id@ + ")"@,
            Some(Err(e)) => alert matches Some(a) && a.class@ == error_class() && a.text@ == "Error: "@ + e@,
        },
{
    if pending {
        return Some(Alert {
            class: "alert alert-info",
            text: String::from_str("Connecting to device. This can take a few seconds..."),
        });
    }
    match outcome {
        None => None,
        Some(Ok(id)) => {
            let mut text = prefixed("Device registered (ID: ", id.as_str());
            text.append(")");
            Some(Alert { class: "alert alert-success", text })
        },
        Some(Err(e)) => Some(Alert { class: "alert alert-error", text: prefixed("Error: ", e.as_str()) }),
    }
}

/// The label of the register button.
pub fn register_label(pending: bool) -> (label: &'static str)
    ensures
        label@ == (if pending { "Registering…"@ } else { "Register"@ }),
{
    if pending { "Registering…" } else { "Register" }
}

/// The notice after an install request.
pub fn install_alert(outcome: &Result<String, String>) -> (alert: Alert)
    ensures
        match outcome {
            Ok(_) => alert.class@ == success_class() && alert.text@ == "Install queued."@,
            Err(e) => alert.class@ == error_class() && alert.text@ == "Install error: "@ + e@,
        },
{
    match outcome {
        Ok(_) => Alert { class: "alert alert-success", text: String::from_str("Install queued.") },
        Err(e) => Alert { class: "alert alert-error", text: prefixed("Install error: ", e.as_str()) },
    }
}

/// What the install form keeps: whether the IPA is to be stored for
/// auto-refresh (on at first), and the job of the last accepted install,
/// whose progress is followed.
pub struct InstallState {
    pub store: bool,
    pub active_job: Option<String>,
}

impl InstallState {
    pub fn new() -> (s: InstallState)
        ensures
            s.store,
            s.active_job is None,
    {
        InstallState { store: true, active_job: None }
    }

    /// Takes in the answer to an install request. An accepted install's job
    /// becomes the one followed and true comes back: the app list must be
    /// fetched again. Otherwise nothing changes.
    pub fn record_outcome(&mut self, outcome: &Option<Result<String, String>>) -> (reload: bool)
        ensures
            reload == (outcome matches Some(Ok(_))),
            final(self).store == old(self).store,
            match outcome {
                Some(Ok(id)) => final(self).active_job matches Some(j) && j@ == id@,
                _ => final(self).active_job == old(self).active_job,
            },
    {
        match outcome {
            Some(Ok(id)) => {
                self.active_job = Some(id.clone());
                true
            },
            _ => false,
        }
    }
}

/// The notice after the app list was synced from the device.
pub fn reconcile_alert(outcome: Result<u64, String>) -> (alert: Alert)
    ensures
        match outcome {
            Ok(n) => alert.class@ == success_class() && alert.text@ == reconcile_notice_text(n),
            Err(e) => alert.class@ == error_class() && alert.text@ == "Sync error: "@ + e@,
        },
        outcome matches Ok(n) ==> (n == 0 <==> alert.text@ == "In sync with device."@),
{
    match outcome {
        Ok(n) => Alert { class: "alert alert-success", text: reconcile_notice(n) },
        Err(e) => Alert { class: "alert alert-error", text: prefixed("Sync error: ", e.as_str()) },
    }
}

/// The notice after a refresh request; an accepted one is followed by the
/// progress of its job.
pub fn refresh_alert(outcome: &Result<String, String>) -> (alert: Alert)
    ensures
        match outcome {
            Ok(_) => alert.class@ == success_class() && alert.text@ == "Refresh queued."@,
            Err(e) => alert.class@ == error_class() && alert.text@ == "Refresh error: "@ + e@,
        },
{
    match outcome {
        Ok(_) => Alert { class: "alert alert-success", text: String::from_str("Refresh queued.") },
        Err(e) => Alert { class: "alert alert-error", text: prefixed("Refresh error: ", e.as_str()) },
    }
}

/// The notice after certificates were revoked, or the revocation failed.
pub fn revoke_alert(outcome: Result<u64, String>) -> (alert: Alert)
    ensures
        match outcome {
            Ok(n) => alert.class@ == success_class() && alert.text@ == "Revoked "@ + decimal_digits(n as nat)
                + " iOS development certificate(s). You can now install apps again."@,
            Err(e) => alert.class@ == error_class() && alert.text@ == "Revoke failed: "@ + e@,
        },
{
    match outcome {
        Ok(n) => Alert { class: "alert alert-success", text: revoked_notice(n) },
        Err(e) => Alert { class: "alert alert-error", text: prefixed("Revoke failed: ", e.as_str()) },
    }
}

/// How a list section shows the answer to its fetch: the error, the note for
/// an empty list, or the table of its rows.
pub enum ListView {
    Failed(String),
    Empty(&'static str),
    Rows,
}

pub open spec fn list_view_is(v: ListView, outcome: Result<usize, String>, empty_note: Seq<char>) -> bool {
    match outcome {
        Err(e) => v matches ListView::Failed(t) && t@ == "Error: "@ + e@,
        Ok(n) => if n == 0 {
            v matches ListView::Empty(t) && t@ == empty_note
        } else {
            v is Rows
        },
    }
}

/// A list section shows the fetch error after `Error: ` when the fetch
/// failed, the empty-list note exactly when the list is empty, and the table
/// exactly when it has rows.
pub proof fn law_list_view(v: ListView, outcome: Result<usize, String>, empty_note: Seq<char>)
    requires
        list_view_is(v, outcome, empty_note),
    ensures
        outcome matches Err(e) ==> (v matches ListView::Failed(t) && t@ == "Error: "@ + e@),
        outcome matches Ok(n) ==> ((v is Rows) <==> n > 0),
        outcome matches Ok(n) ==> ((v is Empty) <==> n == 0),
        v matches ListView::Empty(t) ==> t@ == empty_note,
{
}

/// The account list, from the number of accounts or the fetch error.
pub fn accounts_view(outcome: Result<usize, String>) -> (v: ListView)
    ensures
        list_view_is(v, outcome, "No accounts added yet."@),
        outcome matches Err(e) ==> (v matches ListView::Failed(t) && t@ == "Error: "@ + e@),
        outcome matches Ok(n) ==> ((v is Rows) <==> n > 0),
        v matches ListView::Empty(t) ==> (t@ == "No accounts added yet."@ && outcome == Ok::<usize, String>(0)),
{
    match outcome {
        Err(e) => ListView::Failed(prefixed("Error: ", e.as_str())),
        Ok(n) => if n == 0 { ListView::Empty("No accounts added yet.") } else { ListView::Rows },
    }
}

/// The device list, from the number of devices or the fetch error.
pub fn devices_view(outcome: Result<usize, String>) -> (v: ListView)
    ensures
        list_view_is(v, outcome, "No devices registered."@),
        outcome matches Err(e) ==> (v matches ListView::Failed(t) && t@ == "Error: "@ + e@),
        outcome matches Ok(n) ==> ((v is Rows) <==> n > 0),
        v matches ListView::Empty(t) ==> (t@ == "No devices registered."@ && outcome == Ok::<usize, String>(0)),
{
    match outcome {
        Err(e) => ListView::Failed(prefixed("Error: ", e.as_str())),
        Ok(n) => if n == 0 { ListView::Empty("No devices registered.") } else { ListView::Rows },
    }
}

/// A device's app list, from the number of apps or the fetch error.
pub fn apps_view(outcome: Result<usize, String>) -> (v: ListView)
    ensures
        list_view_is(v, outcome, "No apps installed on this device."@),
        outcome matches Err(e) ==> (v matches ListView::Failed(t) && t@ == "Error: "@ + e@),
        outcome matches Ok(n) ==> ((v is Rows) <==> n > 0),
        v matches ListView::Empty(t) ==> (t@ == "No apps installed on this device."@ && outcome == Ok::<usize, String>(0)),
{
    match outcome {
        Err(e) => ListView::Failed(prefixed("Error: ", e.as_str())),
        Ok(n) => if n == 0 { ListView::Empty("No apps installed on this device.") } else { ListView::Rows },
    }
}

/// The error line when the device could not be loaded.
pub fn device_error_text(e: &str) -> (s: String)
    ensures
        s@ == "Device error: "@ + e@,
{
    prefixed("Device error: ", e)
}

/// The error line when a job's status could not be loaded.
pub fn job_error_text(e: &str) -> (s: String)
    ensures
        s@ == "Job error: "@ + e@,
{
    prefixed("Job error: ", e)
}

/// The error line when the settings could not be loaded.
pub fn config_error_text(e: &str) -> (s: String)
    ensures
        s@ == "Error loading config: "@ + e@,
{
    prefixed("Error loading config: ", e)
}

/// What an app row offers: a refresh when its IPA is stored, otherwise a
/// note that there is none.
pub enum AppAction {
    Refresh,
    NoIpa,
}

pub fn app_action(has_ipa: bool) -> (a: AppAction)
    ensures
        has_ipa <==> a is Refresh,
{
    if has_ipa { AppAction::Refresh } else { AppAction::NoIpa }
}

/// The interface row of the settings page is shown only when an interface
/// is configured.
pub fn shows_interface_row(mdns_interface: &str) -> (shown: bool)
    ensures
        shown == (mdns_interface@.len() > 0),
{
    !mdns_interface.is_empty()
}

/// How often the scheduler checks, as the settings page shows it.
pub fn interval_text(hours: u64) -> (s: String)
    ensures
        s@ == "Every "@ + decimal_digits(hours as nat) + " hours"@,
{
    let mut s = String::from_str("Every ");
    let n = decimal_text(hours);
    s.append(n.as_str());
    s.append(" hours");
    s
}

/// How long before expiry apps are refreshed, as the settings page shows it.
pub fn refresh_window_text(days: i64) -> (s: String)
    ensures
        s@ == signed_decimal(days as int) + " days before expiry"@,
{
    let mut s = signed_decimal_text(days);
    s.append(" days before expiry");
    s
}

/// Yes or No, for the mDNS setting.
pub fn enabled_text(enabled: bool) -> (s: &'static str)
    ensures
        s@ == (if enabled { "Yes"@ } else { "No"@ }),
{
    if enabled { "Yes" } else { "No" }
}

} // verus!
