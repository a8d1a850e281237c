//! The two-step sign-in of an Apple ID on the accounts page: credentials
//! first, then, when the account asks for it, a two-factor code sent to a
//! trusted device.

use vstd::prelude::*;

verus! {

/// What the add-account form holds between requests.
pub struct LoginFlow {
    /// The session key of a sign-in that still waits for its two-factor
    /// code; while it is set the code form is shown.
    pub session_key: Option<String>,
    /// The message of the last failed request.
    pub error: Option<String>,
    /// Whether a request is in flight.
    pub pending: bool,
}

pub open spec fn opt_view(o: Option<String>) -> Option<Seq<char>> {
    match o {
        Some(s) => Some(s@),
        None => None,
    }
}

/// The view of an optional text is the text's characters, or nothing.
pub proof fn law_opt_view(o: Option<String>)
    ensures
        o matches Some(t) ==> opt_view(o) == Some(t@),
        o is None ==> opt_view(o) is None,
{
}

impl LoginFlow {
    pub fn new() -> (f: LoginFlow)
        ensures
            f.session_key is None,
            f.error is None,
            !f.pending,
    {
        LoginFlow { session_key: None, error: None, pending: false }
    }

    /// Whether the two-factor code form is shown instead of the credentials.
    pub fn shows_code_form(&self) -> (b: bool)
        ensures
            b == self.session_key is Some,
    {
        self.session_key.is_some()
    }

    /// The credentials are submitted: a request starts and the last error is
    /// cleared.
    pub fn begin_sign_in(&mut self)
        ensures
            final(self).pending,
            final(self).error is None,
            opt_view(final(self).session_key) == opt_view(old(self).session_key),
    {
        self.pending = true;
        self.error = None;
    }

    /// The sign-in request answered: with a session key and whether a
    /// two-factor code is needed, or with an error message. Returns true when
    /// the account was added, so the list must be reloaded.
    pub fn finish_sign_in(&mut self, outcome: Result<(String, bool), String>) -> (added: bool)
        ensures
            !final(self).pending,
            added == (outcome matches Ok((_, needs_code)) && !needs_code),
            match outcome {
                Ok((key, needs_code)) => {
                    &&& opt_view(final(self).error) == opt_view(old(self).error)
                    &&& needs_code ==> opt_view(final(self).session_key) == Some(key@)
                    &&& !needs_code ==> opt_view(final(self).session_key) == opt_view(old(self).session_key)
                },
                Err(msg) => {
                    &&& opt_view(final(self).error) == Some(msg@)
                    &&& opt_view(final(self).session_key) == opt_view(old(self).session_key)
                },
            },
    {
        let added = match outcome {
            Ok((key, needs_code)) => {
                if needs_code {
                    self.session_key = Some(key);
                    false
                } else {
                    true
                }
            },
            Err(msg) => {
                self.error = Some(msg);
                false
            },
        };
        self.pending = false;
        added
    }

    /// The code form is submitted. Without a session key nothing happens and
    /// `None` comes back; otherwise a request starts, the last error is
    /// cleared, and the key to send with the code comes back.
    pub fn begin_code(&mut self) -> (key: Option<String>)
        ensures
            match old(self).session_key {
                None => {
                    &&& key is None
                    &&& final(self).pending == old(self).pending
                    &&& opt_view(final(self).error) == opt_view(old(self).error)
                    &&& final(self).session_key is None
                },
                Some(k) => {
                    &&& opt_view(key) == Some(k@)
                    &&& final(self).pending
                    &&& final(self).error is None
                    &&& opt_view(final(self).session_key) == Some(k@)
                },
            },
    {
        match &self.session_key {
            None => None,
            Some(k) => {
                let key = k.clone();
                self.pending = true;
                self.error = None;
                Some(key)
            },
        }
    }

    /// The code request answered. On success the session ends, the form
    /// returns to the credentials and true comes back (the list must be
    /// reloaded); on failure the message is kept and the code may be
    /// entered again.
    pub fn finish_code(&mut self, outcome: Result<(), String>) -> (added: bool)
        ensures
            !final(self).pending,
            added == outcome is Ok,
            match outcome {
                Ok(_) => {
                    &&& final(self).session_key is None
                    &&& opt_view(final(self).error) == opt_view(old(self).error)
                },
                Err(msg) => {
                    &&& opt_view(final(self).error) == Some(msg@)
                    &&& opt_view(final(self).session_key) == opt_view(old(self).session_key)
                },
            },
    {
        let added = match outcome {
            Ok(()) => {
                self.session_key = None;
                true
            },
            Err(msg) => {
                self.error = Some(msg);
                false
            },
        };
        self.pending = false;
        added
    }

    /// The label of the submit button of the form that is shown.
    pub fn submit_label(&self) -> (label: &'static str)
        ensures
            label@ == (if self.session_key is None {
                if self.pending { "Signing in..."@ } else { "Sign In"@ }
            } else {
                if self.pending { "Verifying..."@ } else { "Submit Code"@ }
            }),
    {
        if self.session_key.is_none() {
            if self.pending { "Signing in..." } else { "Sign In" }
        } else {
            if self.pending { "Verifying..." } else { "Submit Code" }
        }
    }
}

} // verus!
