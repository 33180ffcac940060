//! Closing the stream through Sunshine's web API: which credentials are
//! used, which endpoints are tried in order, and what is logged of each try.
use vstd::prelude::*;
use crate::lines::{join_spec, join_with, texts};
use crate::text::{chars_of, owned, push_str, trim, trim_spec};

verus! {

/// The credentials of Sunshine's web API.
pub struct Credentials {
    pub user: String,
    pub password: String,
}

/// How the credentials are found.
pub enum CredentialsSource {
    /// Both were given.
    Given(Credentials),
    /// Neither was given: the password is read from the password file.
    PasswordFile,
    /// Only one was given.
    Refused,
}

/// An empty value counts as not given.
pub open spec fn given(v: Option<&str>) -> bool {
    match v {
        Some(s) => s@.len() > 0,
        None => false,
    }
}

/// How the credentials are found from the command line's values: both
/// given (not empty) are used; neither sends to the password file; one
/// alone is refused.
pub fn resolve_credentials(user: Option<&str>, password: Option<&str>) -> (r: CredentialsSource)
    ensures
        match r {
            CredentialsSource::Given(c) => given(user) && given(password) && c.user@ == user.unwrap()@
                && c.password@ == password.unwrap()@,
            CredentialsSource::PasswordFile => !given(user) && !given(password),
            CredentialsSource::Refused => given(user) != given(password),
        },
{
    let u = match user {
        Some(s) => if chars_of(s).len() > 0 {
            Some(s)
        } else {
            None
        },
        None => None,
    };
    let p = match password {
        Some(s) => if chars_of(s).len() > 0 {
            Some(s)
        } else {
            None
        },
        None => None,
    };
    match (u, p) {
        (Some(u), Some(p)) => CredentialsSource::Given(Credentials { user: owned(u), password: owned(p) }),
        (None, None) => CredentialsSource::PasswordFile,
        _ => CredentialsSource::Refused,
    }
}

/// The credentials of `user` with the password file's text, trimmed;
/// `None` when the file holds only whitespace.
pub fn credentials_from_password_file(user: &str, text: &str) -> (r: Option<Credentials>)
    ensures
        match r {
            Some(c) => trim_spec(text@).len() > 0 && c.user@ == user@ && c.password@ == trim_spec(text@),
            None => trim_spec(text@).len() == 0,
        },
{
    let password = trim(text);
    if chars_of(password.as_str()).len() == 0 {
        return None;
    }
    Some(Credentials { user: owned(user), password })
}

/// The message when only one of the user and the password is given.
pub const CREDENTIALS_MISMATCH_MESSAGE: &'static str = "both Sunshine API user and password must be provided, or neither";

/// The endpoints that close the running application, tried in order.
pub open spec fn disconnect_urls_spec() -> Seq<Seq<char>> {
    seq![
        "https://127.0.0.1:47990/api/apps/close"@,
        "http://127.0.0.1:47989/api/apps/close"@,
        "https://127.0.0.1:47984/api/apps/close"@,
    ]
}

/// The endpoints that close the running application, in order.
pub fn disconnect_urls() -> (r: Vec<String>)
    ensures
        texts(r@) == disconnect_urls_spec(),
{
    let mut v: Vec<String> = Vec::new();
    v.push(owned("https://127.0.0.1:47990/api/apps/close"));
    v.push(owned("http://127.0.0.1:47989/api/apps/close"));
    v.push(owned("https://127.0.0.1:47984/api/apps/close"));
    assert(texts(v@) =~= disconnect_urls_spec());
    v
}

/// What one request to an endpoint came to.
pub enum Attempt {
    /// The endpoint answered with this status (its code and its text).
    Answered { code: u16, status: String },
    /// The request failed with this error text.
    Failed { error: String },
}

/// A status code of success (2xx).
pub open spec fn success_code(code: u16) -> bool {
    200 <= code <= 299
}

/// The log line of one try.
pub open spec fn attempt_line(url: Seq<char>, a: Attempt) -> Seq<char> {
    match a {
        Attempt::Answered { status, .. } => url + " rc=0 response="@ + status@,
        Attempt::Failed { error } => url + " rc=err response="@ + error@,
    }
}

/// The tries of a disconnect so far: one log line per try, and whether an
/// endpoint accepted the request.
pub struct DisconnectLog {
    pub lines: Vec<String>,
    pub accepted: bool,
}

impl DisconnectLog {
    /// No try yet.
    pub fn new() -> (r: Self)
        ensures
            r.lines@.len() == 0,
            !r.accepted,
    {
        DisconnectLog { lines: Vec::new(), accepted: false }
    }

    /// Records a try at `url`: its log line, and whether it was accepted.
    /// Once an endpoint accepted, no further one is tried.
    pub fn record(&mut self, url: &str, attempt: &Attempt)
        ensures
            texts(final(self).lines@) == texts(old(self).lines@).push(attempt_line(url@, *attempt)),
            final(self).accepted == (old(self).accepted || (*attempt matches Attempt::Answered { code, .. }
                && success_code(code))),
    {
        let ghost before = texts(self.lines@);
        let mut line = owned(url);
        match attempt {
            Attempt::Answered { code, status } => {
                push_str(&mut line, " rc=0 response=");
                push_str(&mut line, status.as_str());
                self.accepted = self.accepted || (200 <= *code && *code <= 299);
            },
            Attempt::Failed { error } => {
                push_str(&mut line, " rc=err response=");
                push_str(&mut line, error.as_str());
            },
        }
        self.lines.push(line);
        assert(texts(self.lines@) =~= before.push(attempt_line(url@, *attempt)));
    }

    /// The error when no endpoint accepted the request: the log lines under
    /// a heading.
    pub fn failure_message(&self) -> (r: String)
        ensures
            r@ == "Sunshine disconnect API did not accept the close request:\n"@ + join_spec(
                texts(self.lines@),
                "\n"@,
            ),
    {
        let mut out = owned("Sunshine disconnect API did not accept the close request:\n");
        let joined = join_with(&self.lines, "\n");
        push_str(&mut out, joined.as_str());
        out
    }

    /// The log lines as the disconnect log records them, one block per
    /// disconnect.
    pub fn log_text(&self) -> (r: String)
        ensures
            r@ == join_spec(texts(self.lines@), "\n"@),
    {
        join_with(&self.lines, "\n")
    }
}

} // verus!
