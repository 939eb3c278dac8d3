use vstd::prelude::*;
use crate::names::{MarkerKind, marker_files, marker_file_count};
use crate::text::concat;

verus! {

/// The value of a run of decimal digits.
pub open spec fn digits_value(s: Seq<char>) -> int
    decreases s.len(),
{
    if s.len() == 0 {
        0
    } else {
        digits_value(s.drop_last()) * 10 + (s.last() as int - '0' as int)
    }
}

/// What `u64::from_str` accepts: an optional `+`, then one or more decimal
/// digits whose value fits in a `u64`.
pub open spec fn decimal_of(s: Seq<char>) -> Option<u64> {
    let d = if s.len() > 0 && s[0] == '+' {
        s.drop_first()
    } else {
        s
    };
    if d.len() > 0 && (forall|i: int| 0 <= i < d.len() ==> '0' <= #[trigger] d[i] <= '9')
        && digits_value(d) <= u64::MAX {
        Some(digits_value(d) as u64)
    } else {
        None
    }
}

/// Relies on `u64::from_str`: an optional `+` and decimal digits, no overflow.
#[verifier::external_body]
fn parse_u64(s: &str) -> (r: Option<u64>)
    ensures
        r == decimal_of(s@),
{
    s.parse::<u64>().ok()
}

/// A header's value read as a number; a value that is no number reads as 0.
pub open spec fn header_number(h: Seq<char>) -> u64 {
    match decimal_of(h) {
        Some(v) => v,
        None => 0,
    }
}

/// Reads a header's value as a number; a value that is no number reads as 0.
pub fn header_value(h: &str) -> (r: u64)
    ensures
        r == header_number(h@),
{
    match parse_u64(h) {
        Some(v) => v,
        None => 0,
    }
}

/// The answer to one metadata request for a marker file.
pub enum Reply {
    /// The service answered with a status code and the text of its
    /// `x-ratelimit-remaining` and `x-ratelimit-reset` headers, if present.
    Status { code: u16, remaining: Option<String>, reset: Option<String> },
    /// The request failed before any answer (connection, timeout).
    Failed,
}

/// What one reply means for the candidate file being checked.
#[derive(Clone, Copy, Debug, PartialEq, Eq, Structural)]
pub enum Verdict {
    /// The file is there.
    Present,
    /// The file is not there; this is definitive.
    Absent,
    /// Ask again after waiting this many seconds.
    Retry { wait_secs: u64 },
    /// The attempts are used up: the file counts as absent.
    GiveUp,
}

/// Most requests made for one candidate file.
pub const MAX_ATTEMPTS: u32 = 3;

/// Shortest wait after a rate-limit answer, in seconds.
pub const MIN_RATE_WAIT: u64 = 60;

pub open spec fn is_success(code: u16) -> bool {
    200 <= code < 300
}

/// A forbidden answer that says no requests remain in the current window.
pub open spec fn is_rate_limited(code: u16, remaining: Option<String>) -> bool {
    code == 403 && match remaining {
        Some(t) => header_number(t@) == 0,
        None => false,
    }
}

/// The wait after a rate-limit answer: until the declared reset instant,
/// and never less than a minute. A missing reset reads as 0.
pub open spec fn rate_wait(reset: Option<String>, now: u64) -> u64 {
    let r = match reset {
        Some(t) => header_number(t@),
        None => 0,
    };
    if r > now && r - now > MIN_RATE_WAIT {
        (r - now) as u64
    } else {
        MIN_RATE_WAIT
    }
}

/// What the reply to attempt number `attempt` (from 1) means, at UNIX time `now`.
pub open spec fn reply_verdict(attempt: u32, reply: Reply, now: u64) -> Verdict {
    match reply {
        Reply::Status { code, remaining, reset } => {
            if is_success(code) {
                Verdict::Present
            } else if code == 404 {
                Verdict::Absent
            } else if attempt >= MAX_ATTEMPTS {
                Verdict::GiveUp
            } else if is_rate_limited(code, remaining) {
                Verdict::Retry { wait_secs: rate_wait(reset, now) }
            } else {
                Verdict::Retry { wait_secs: (2 * attempt) as u64 }
            }
        },
        Reply::Failed => {
            if attempt >= MAX_ATTEMPTS {
                Verdict::GiveUp
            } else {
                Verdict::Retry { wait_secs: (2 * attempt) as u64 }
            }
        },
    }
}

/// Decides what the reply to attempt number `attempt` means. A success
/// status means present and a 404 means absent, at once. A 403 whose
/// remaining quota is 0 waits until the reset instant, at least a minute;
/// any other failure waits `2 × attempt` seconds. Either way the attempt
/// counts, and after the third the file counts as absent.
pub fn judge_reply(attempt: u32, reply: &Reply, now: u64) -> (r: Verdict)
    requires
        1 <= attempt <= MAX_ATTEMPTS,
    ensures
        r == reply_verdict(attempt, *reply, now),
{
    match reply {
        Reply::Status { code, remaining, reset } => {
            if 200 <= *code && *code < 300 {
                Verdict::Present
            } else if *code == 404 {
                Verdict::Absent
            } else if attempt >= MAX_ATTEMPTS {
                Verdict::GiveUp
            } else {
                let limited = *code == 403 && match remaining {
                    Some(t) => header_value(t.as_str()) == 0,
                    None => false,
                };
                if limited {
                    let r = match reset {
                        Some(t) => header_value(t.as_str()),
                        None => 0,
                    };
                    let wait = if r > now && r - now > MIN_RATE_WAIT {
                        r - now
                    } else {
                        MIN_RATE_WAIT
                    };
                    Verdict::Retry { wait_secs: wait }
                } else {
                    Verdict::Retry { wait_secs: 2 * attempt as u64 }
                }
            }
        },
        Reply::Failed => {
            if attempt >= MAX_ATTEMPTS {
                Verdict::GiveUp
            } else {
                Verdict::Retry { wait_secs: 2 * attempt as u64 }
            }
        },
    }
}

/// A remote check of one marker kind for one repository: which candidate
/// file is being asked for, and which attempt for it comes next.
#[derive(Clone, Copy, Debug, PartialEq, Eq, Structural)]
pub struct Probe {
    pub kind: MarkerKind,
    pub candidate: usize,
    pub attempt: u32,
}

/// What to do next in a remote check.
#[derive(Clone, Copy, Debug, PartialEq, Eq, Structural)]
pub enum ProbeAction {
    /// Wait this many seconds, then request the probe's current candidate.
    Ask { wait_secs: u64 },
    /// The check is over: whether a marker file of the kind is present.
    Done { present: bool },
}

impl Probe {
    pub open spec fn wf(&self) -> bool {
        &&& self.candidate < marker_files(self.kind).len()
        &&& 1 <= self.attempt <= MAX_ATTEMPTS
    }

    /// How many more requests the check may make after the current one; it
    /// drops with every `Ask`, so a check ends after a bounded number of
    /// requests.
    pub open spec fn budget(&self) -> int {
        (marker_files(self.kind).len() - 1 - self.candidate) * 3 + (MAX_ATTEMPTS - self.attempt)
    }

    /// A check that starts with the first candidate file of `kind`.
    pub fn new(kind: MarkerKind) -> (r: Probe)
        ensures
            r.wf(),
            r.kind == kind,
            r.candidate == 0,
            r.attempt == 1,
    {
        Probe { kind, candidate: 0, attempt: 1 }
    }

    /// Takes the reply to the current request (made at UNIX time `now`)
    /// and says what comes next. A present file ends the check with
    /// `true`. An absent file, or one whose attempts are used up, moves on
    /// to the next candidate, or ends the check with `false` after the last.
    /// A retry asks for the same candidate again with the next attempt.
    pub fn on_reply(&mut self, reply: &Reply, now: u64) -> (r: ProbeAction)
        requires
            old(self).wf(),
        ensures
            final(self).kind == old(self).kind,
            match reply_verdict(old(self).attempt, *reply, now) {
                Verdict::Present => r == ProbeAction::Done { present: true } && *final(self)
                    == *old(self),
                Verdict::Retry { wait_secs } => r == (ProbeAction::Ask { wait_secs })
                    && final(self).candidate == old(self).candidate && final(self).attempt
                    == old(self).attempt + 1,
                _ => if old(self).candidate + 1 < marker_files(old(self).kind).len() {
                    r == (ProbeAction::Ask { wait_secs: 0 }) && final(self).candidate
                        == old(self).candidate + 1 && final(self).attempt == 1
                } else {
                    r == ProbeAction::Done { present: false } && *final(self) == *old(self)
                },
            },
            r is Ask ==> final(self).wf() && final(self).budget() < old(self).budget(),
    {
        let v = judge_reply(self.attempt, reply, now);
        match v {
            Verdict::Present => ProbeAction::Done { present: true },
            Verdict::Retry { wait_secs } => {
                self.attempt = self.attempt + 1;
                ProbeAction::Ask { wait_secs }
            },
            _ => {
                if self.candidate + 1 < marker_file_count(self.kind) {
                    self.candidate = self.candidate + 1;
                    self.attempt = 1;
                    ProbeAction::Ask { wait_secs: 0 }
                } else {
                    ProbeAction::Done { present: false }
                }
            },
        }
    }
}

/// A rate-limit answer never leads to a wait shorter than a minute, nor
/// one that ends before the declared reset instant; and it still uses up an
/// attempt, so that after the third the file counts as absent.
pub proof fn lemma_rate_limit_waits(attempt: u32, remaining: String, reset: String, now: u64)
    requires
        1 <= attempt <= MAX_ATTEMPTS,
        header_number(remaining@) == 0,
    ensures
        attempt < MAX_ATTEMPTS ==> ({
            let v = reply_verdict(
                attempt,
                Reply::Status { code: 403, remaining: Some(remaining), reset: Some(reset) },
                now,
            );
            &&& v is Retry
            &&& v->wait_secs >= MIN_RATE_WAIT
            &&& now + v->wait_secs >= header_number(reset@)
        }),
        attempt == MAX_ATTEMPTS ==> reply_verdict(
            attempt,
            Reply::Status { code: 403, remaining: Some(remaining), reset: Some(reset) },
            now,
        ) == Verdict::GiveUp,
{
}

pub open spec fn repos_text() -> Seq<char> {
    seq!['/', 'r', 'e', 'p', 'o', 's', '/']
}

pub open spec fn contents_text() -> Seq<char> {
    seq!['/', 'c', 'o', 'n', 't', 'e', 'n', 't', 's', '/']
}

/// The metadata address of a file in a repository:
/// `{api_base}/repos/{owner/name}/contents/{file}`.
pub fn contents_url(api_base: &str, repo: &str, file: &str) -> (r: String)
    ensures
        r@ == api_base@ + repos_text() + repo@ + contents_text() + file@,
{
    let t = concat(api_base, "/repos/");
    let t = concat(t.as_str(), repo);
    let t = concat(t.as_str(), "/contents/");
    let t = concat(t.as_str(), file);
    proof {
        reveal_strlit("/repos/");
        reveal_strlit("/contents/");
        assert(t@ =~= api_base@ + repos_text() + repo@ + contents_text() + file@);
    }
    t
}

/// The value of the `Authorization` header: `token {credential}`.
pub fn authorization(credential: &str) -> (r: String)
    ensures
        r@ == seq!['t', 'o', 'k', 'e', 'n', ' '] + credential@,
{
    let t = concat("token ", credential);
    proof {
        reveal_strlit("token ");
        assert(t@ =~= seq!['t', 'o', 'k', 'e', 'n', ' '] + credential@);
    }
    t
}

} // verus!
