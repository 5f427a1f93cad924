//! State machine of one resumable download job, and its driver.
//!
//! A job can loop: `Downloading → (link expired) → Refreshing → (new link)
//! → Downloading`. `advance` defines every legal transition; any other
//! (state, event) pair is refused with `InvalidTransition`. The driver keeps
//! the refresh count and enforces the refresh budget; the I/O (attempts,
//! link refreshes, file removal) is done by the caller between its steps.

use vstd::prelude::*;

use crate::error::{AppError, DownloadError};
use crate::http_error::HttpFailureKind;
use crate::text::{decimal, push_decimal, push_str};

verus! {

/// Discrete states of a resumable download job.
#[derive(Debug, Clone, PartialEq, Eq)]
pub enum ResumeState {
    /// No link obtained yet.
    Init,
    /// A link is held; the download starts at `resume_from` (0 = from scratch).
    Ready { resume_from: u64 },
    /// Range requests against the current link are writing the `.part` file.
    Downloading { written: u64 },
    /// The current link failed at link level; a refresh is pending.
    Refreshing { written: u64, refreshes_used: u32 },
    /// Final: the `.part` file is complete.
    Assembled,
    /// Final: given up.
    Failed(DownloadError),
}

/// Events that drive the job.
#[derive(Debug, Clone, PartialEq, Eq)]
pub enum ResumeEvent {
    /// A link was obtained; start at `resume_from`.
    UrlObtained { resume_from: u64 },
    /// Leave `Ready` and start downloading.
    EnterDownload,
    /// The attempt filled the `.part` file.
    AttemptCompleted,
    /// The link expired (403/404/410/expired credentials) after `written` bytes.
    AttemptUrlExpired { written: u64 },
    /// A failure that no refresh can cure.
    AttemptFatal(DownloadError),
    /// A fresh link was obtained; resume at `resume_from`.
    RefreshSucceeded { resume_from: u64 },
    /// The refresh budget is used up.
    RefreshBudgetExhausted,
    /// The fresh link reports another size: discard the `.part` file and restart.
    SizeMismatch,
}

/// The (state, event) pairs that have a transition.
pub open spec fn legal(s: ResumeState, ev: ResumeEvent) -> bool {
    match (s, ev) {
        (ResumeState::Init, ResumeEvent::UrlObtained { .. }) => true,
        (ResumeState::Ready { .. }, ResumeEvent::EnterDownload) => true,
        (ResumeState::Downloading { .. }, ResumeEvent::AttemptCompleted) => true,
        (ResumeState::Downloading { .. }, ResumeEvent::AttemptUrlExpired { .. }) => true,
        (ResumeState::Downloading { .. }, ResumeEvent::AttemptFatal(_)) => true,
        (ResumeState::Refreshing { .. }, ResumeEvent::RefreshSucceeded { .. }) => true,
        (ResumeState::Refreshing { .. }, ResumeEvent::RefreshBudgetExhausted) => true,
        (ResumeState::Refreshing { .. }, ResumeEvent::SizeMismatch) => true,
        _ => false,
    }
}

/// `r` is the state that the legal pair (`s`, `ev`) leads to.
pub open spec fn advanced(s: ResumeState, ev: ResumeEvent, r: ResumeState) -> bool {
    match (s, ev) {
        (ResumeState::Init, ResumeEvent::UrlObtained { resume_from }) => r
            == ResumeState::Ready { resume_from },
        (ResumeState::Ready { resume_from }, ResumeEvent::EnterDownload) => r
            == ResumeState::Downloading { written: resume_from },
        (ResumeState::Downloading { .. }, ResumeEvent::AttemptCompleted) => r
            == ResumeState::Assembled,
        (ResumeState::Downloading { .. }, ResumeEvent::AttemptUrlExpired { written }) => r
            == ResumeState::Refreshing { written, refreshes_used: 0 },
        (ResumeState::Downloading { .. }, ResumeEvent::AttemptFatal(e)) => r
            == ResumeState::Failed(e),
        (ResumeState::Refreshing { .. }, ResumeEvent::RefreshSucceeded { resume_from }) => r
            == ResumeState::Downloading { written: resume_from },
        (ResumeState::Refreshing { .. }, ResumeEvent::RefreshBudgetExhausted) => r matches
            ResumeState::Failed(DownloadError::Other(m)) && m@ == "refresh budget exhausted"@,
        (ResumeState::Refreshing { .. }, ResumeEvent::SizeMismatch) => r == ResumeState::Ready {
            resume_from: 0,
        },
        _ => false,
    }
}

/// Final states.
pub open spec fn terminal(s: ResumeState) -> bool {
    s is Assembled || s is Failed
}

/// Characters of a string in Debug style: quoted, with `"` and `\` escaped.
pub open spec fn quoted(s: Seq<char>) -> Seq<char> {
    seq!['"'] + escaped(s) + seq!['"']
}

/// `s` with `"` and `\` escaped by a backslash.
pub open spec fn escaped(s: Seq<char>) -> Seq<char>
    decreases s.len(),
{
    if s.len() == 0 {
        Seq::empty()
    } else {
        let c = s.last();
        escaped(s.drop_last()) + if c == '"' || c == '\\' {
            seq!['\\', c]
        } else {
            seq![c]
        }
    }
}

/// Debug-style text of a failure cause.
pub open spec fn error_text(e: DownloadError) -> Seq<char> {
    match e {
        DownloadError::UrlExpired { status } => "UrlExpired { status: "@ + decimal(status as nat)
            + " }"@,
        DownloadError::Timeout { secs } => "Timeout { secs: "@ + decimal(secs as nat) + " }"@,
        DownloadError::Network(m) => "Network("@ + quoted(m@) + ")"@,
        DownloadError::DiskFull { need, have } => "DiskFull { need: "@ + decimal(need as nat)
            + ", have: "@ + decimal(have as nat) + " }"@,
        DownloadError::Cancelled => "Cancelled"@,
        DownloadError::Other(m) => "Other("@ + quoted(m@) + ")"@,
    }
}

/// Debug-style text of a state.
pub open spec fn state_text(s: ResumeState) -> Seq<char> {
    match s {
        ResumeState::Init => "Init"@,
        ResumeState::Ready { resume_from } => "Ready { resume_from: "@ + decimal(
            resume_from as nat,
        ) + " }"@,
        ResumeState::Downloading { written } => "Downloading { written: "@ + decimal(
            written as nat,
        ) + " }"@,
        ResumeState::Refreshing { written, refreshes_used } => "Refreshing { written: "@
            + decimal(written as nat) + ", refreshes_used: "@ + decimal(refreshes_used as nat)
            + " }"@,
        ResumeState::Assembled => "Assembled"@,
        ResumeState::Failed(e) => "Failed("@ + error_text(e) + ")"@,
    }
}

/// Debug-style text of an event.
pub open spec fn event_text(ev: ResumeEvent) -> Seq<char> {
    match ev {
        ResumeEvent::UrlObtained { resume_from } => "UrlObtained { resume_from: "@ + decimal(
            resume_from as nat,
        ) + " }"@,
        ResumeEvent::EnterDownload => "EnterDownload"@,
        ResumeEvent::AttemptCompleted => "AttemptCompleted"@,
        ResumeEvent::AttemptUrlExpired { written } => "AttemptUrlExpired { written: "@ + decimal(
            written as nat,
        ) + " }"@,
        ResumeEvent::AttemptFatal(e) => "AttemptFatal("@ + error_text(e) + ")"@,
        ResumeEvent::RefreshSucceeded { resume_from } => "RefreshSucceeded { resume_from: "@
            + decimal(resume_from as nat) + " }"@,
        ResumeEvent::RefreshBudgetExhausted => "RefreshBudgetExhausted"@,
        ResumeEvent::SizeMismatch => "SizeMismatch"@,
    }
}

/// Message of a refused transition: `<state> -x-> <event>`.
pub open spec fn refused_text(s: ResumeState, ev: ResumeEvent) -> Seq<char> {
    state_text(s) + " -x-> "@ + event_text(ev)
}

/// Appends `m` quoted in Debug style.
fn push_quoted(out: &mut String, m: &String)
    ensures
        final(out)@ == old(out)@ + quoted(m@),
{
    let cs = crate::text::chars_of(m.as_str());
    out.push('"');
    let ghost base = out@;
    let mut i: usize = 0;
    while i < cs.len()
        invariant
            i <= cs.len(),
            cs@ == m@,
            out@ == base + escaped(cs@.subrange(0, i as int)),
        decreases cs.len() - i,
    {
        let c = cs[i];
        proof {
            assert(cs@.subrange(0, i + 1).drop_last() =~= cs@.subrange(0, i as int));
        }
        if c == '"' || c == '\\' {
            out.push('\\');
            out.push(c);
            proof {
                assert(out@ =~= base + escaped(cs@.subrange(0, i + 1)));
            }
        } else {
            out.push(c);
            proof {
                assert(out@ =~= base + escaped(cs@.subrange(0, i + 1)));
            }
        }
        i += 1;
    }
    out.push('"');
    proof {
        assert(cs@.subrange(0, cs.len() as int) =~= m@);
        assert(out@ =~= old(out)@ + quoted(m@));
    }
}

impl DownloadError {
    /// Appends the Debug-style text of the failure cause.
    pub fn push_text(&self, out: &mut String)
        ensures
            final(out)@ == old(out)@ + error_text(*self),
    {
        let ghost o = out@;
        match self {
            DownloadError::UrlExpired { status } => {
                push_str(out, "UrlExpired { status: ");
                push_decimal(out, *status as u64);
                push_str(out, " }");
            },
            DownloadError::Timeout { secs } => {
                push_str(out, "Timeout { secs: ");
                push_decimal(out, *secs);
                push_str(out, " }");
            },
            DownloadError::Network(m) => {
                push_str(out, "Network(");
                push_quoted(out, m);
                push_str(out, ")");
            },
            DownloadError::DiskFull { need, have } => {
                push_str(out, "DiskFull { need: ");
                push_decimal(out, *need);
                push_str(out, ", have: ");
                push_decimal(out, *have);
                push_str(out, " }");
            },
            DownloadError::Cancelled => {
                push_str(out, "Cancelled");
            },
            DownloadError::Other(m) => {
                push_str(out, "Other(");
                push_quoted(out, m);
                push_str(out, ")");
            },
        }
        proof {
            assert(out@ =~= o + error_text(*self));
        }
    }
}

impl ResumeState {
    /// Appends the Debug-style text of the state.
    pub fn push_text(&self, out: &mut String)
        ensures
            final(out)@ == old(out)@ + state_text(*self),
    {
        let ghost o = out@;
        match self {
            ResumeState::Init => {
                push_str(out, "Init");
            },
            ResumeState::Ready { resume_from } => {
                push_str(out, "Ready { resume_from: ");
                push_decimal(out, *resume_from);
                push_str(out, " }");
            },
            ResumeState::Downloading { written } => {
                push_str(out, "Downloading { written: ");
                push_decimal(out, *written);
                push_str(out, " }");
            },
            ResumeState::Refreshing { written, refreshes_used } => {
                push_str(out, "Refreshing { written: ");
                push_decimal(out, *written);
                push_str(out, ", refreshes_used: ");
                push_decimal(out, *refreshes_used as u64);
                push_str(out, " }");
            },
            ResumeState::Assembled => {
                push_str(out, "Assembled");
            },
            ResumeState::Failed(e) => {
                push_str(out, "Failed(");
                e.push_text(out);
                push_str(out, ")");
            },
        }
        proof {
            assert(out@ =~= o + state_text(*self));
        }
    }
}

impl ResumeEvent {
    /// Appends the Debug-style text of the event.
    pub fn push_text(&self, out: &mut String)
        ensures
            final(out)@ == old(out)@ + event_text(*self),
    {
        let ghost o = out@;
        match self {
            ResumeEvent::UrlObtained { resume_from } => {
                push_str(out, "UrlObtained { resume_from: ");
                push_decimal(out, *resume_from);
                push_str(out, " }");
            },
            ResumeEvent::EnterDownload => {
                push_str(out, "EnterDownload");
            },
            ResumeEvent::AttemptCompleted => {
                push_str(out, "AttemptCompleted");
            },
            ResumeEvent::AttemptUrlExpired { written } => {
                push_str(out, "AttemptUrlExpired { written: ");
                push_decimal(out, *written);
                push_str(out, " }");
            },
            ResumeEvent::AttemptFatal(e) => {
                push_str(out, "AttemptFatal(");
                e.push_text(out);
                push_str(out, ")");
            },
            ResumeEvent::RefreshSucceeded { resume_from } => {
                push_str(out, "RefreshSucceeded { resume_from: ");
                push_decimal(out, *resume_from);
                push_str(out, " }");
            },
            ResumeEvent::RefreshBudgetExhausted => {
                push_str(out, "RefreshBudgetExhausted");
            },
            ResumeEvent::SizeMismatch => {
                push_str(out, "SizeMismatch");
            },
        }
        proof {
            assert(out@ =~= o + event_text(*self));
        }
    }
}

impl ResumeState {
    /// A copy of the state, field by field.
    pub fn duplicate(&self) -> (r: Self)
        ensures
            r == *self,
    {
        match self {
            ResumeState::Init => ResumeState::Init,
            ResumeState::Ready { resume_from } => ResumeState::Ready { resume_from: *resume_from },
            ResumeState::Downloading { written } => ResumeState::Downloading { written: *written },
            ResumeState::Refreshing { written, refreshes_used } => ResumeState::Refreshing {
                written: *written,
                refreshes_used: *refreshes_used,
            },
            ResumeState::Assembled => ResumeState::Assembled,
            ResumeState::Failed(e) => ResumeState::Failed(e.duplicate()),
        }
    }

    /// One step of the machine: the next state for a legal (state, event)
    /// pair; `InvalidTransition` with the text `<state> -x-> <event>` for any
    /// other pair.
    pub fn advance(self, ev: ResumeEvent) -> (r: Result<ResumeState, AppError>)
        ensures
            legal(self, ev) ==> (r matches Ok(n) && advanced(self, ev, n)),
            !legal(self, ev) ==> (r matches Err(AppError::InvalidTransition(m)) && m@
                == refused_text(self, ev)),
    {
        match (&self, &ev) {
            (ResumeState::Init, ResumeEvent::UrlObtained { resume_from }) => {
                return Ok(ResumeState::Ready { resume_from: *resume_from });
            },
            (ResumeState::Ready { resume_from }, ResumeEvent::EnterDownload) => {
                return Ok(ResumeState::Downloading { written: *resume_from });
            },
            (ResumeState::Downloading { .. }, ResumeEvent::AttemptCompleted) => {
                return Ok(ResumeState::Assembled);
            },
            (ResumeState::Downloading { .. }, ResumeEvent::AttemptUrlExpired { written }) => {
                return Ok(ResumeState::Refreshing { written: *written, refreshes_used: 0 });
            },
            (ResumeState::Downloading { .. }, ResumeEvent::AttemptFatal(e)) => {
                return Ok(ResumeState::Failed(e.duplicate()));
            },
            (ResumeState::Refreshing { .. }, ResumeEvent::RefreshSucceeded { resume_from }) => {
                return Ok(ResumeState::Downloading { written: *resume_from });
            },
            (ResumeState::Refreshing { .. }, ResumeEvent::RefreshBudgetExhausted) => {
                return Ok(
                    ResumeState::Failed(
                        DownloadError::Other(String::from_str("refresh budget exhausted")),
                    ),
                );
            },
            (ResumeState::Refreshing { .. }, ResumeEvent::SizeMismatch) => {
                return Ok(ResumeState::Ready { resume_from: 0 });
            },
            _ => {},
        }
        let mut m = String::new();
        self.push_text(&mut m);
        push_str(&mut m, " -x-> ");
        ev.push_text(&mut m);
        proof {
            assert(m@ =~= refused_text(self, ev));
        }
        Err(AppError::InvalidTransition(m))
    }

    /// Whether the state is final (`Assembled` or `Failed`).
    pub fn is_terminal(&self) -> (r: bool)
        ensures
            r == terminal(*self),
    {
        match self {
            ResumeState::Assembled => true,
            ResumeState::Failed(_) => true,
            ResumeState::Init => false,
            ResumeState::Ready { .. } => false,
            ResumeState::Downloading { .. } => false,
            ResumeState::Refreshing { .. } => false,
        }
    }
}

/// A final state accepts no event: a finished job cannot be revived.
pub proof fn lemma_terminal_refuses_all(s: ResumeState, ev: ResumeEvent)
    requires
        terminal(s),
    ensures
        !legal(s, ev),
{
}

/// Every legal step out of `Refreshing` either resumes downloading, restarts
/// from byte 0, or fails: a refresh never completes a job by itself.
pub proof fn lemma_refreshing_exits(written: u64, used: u32, ev: ResumeEvent, r: ResumeState)
    requires
        legal(ResumeState::Refreshing { written, refreshes_used: used }, ev),
        advanced(ResumeState::Refreshing { written, refreshes_used: used }, ev, r),
    ensures
        r is Downloading || r == (ResumeState::Ready { resume_from: 0 }) || r is Failed,
{
}

/// `e` is the failure cause recorded for an attempt that ended with `kind`
/// and that no refresh can cure.
pub open spec fn cause_of(kind: HttpFailureKind, e: DownloadError) -> bool {
    match kind {
        HttpFailureKind::AuthExpired => e == DownloadError::UrlExpired { status: 401 },
        HttpFailureKind::Permanent4xx { status } => e == DownloadError::UrlExpired { status },
        HttpFailureKind::Server5xx { status } => e == DownloadError::UrlExpired { status },
        HttpFailureKind::Timeout => e == DownloadError::Timeout { secs: 0 },
        HttpFailureKind::Quota { .. } => e matches DownloadError::Other(m) && m@
            == "rate limited"@,
        HttpFailureKind::Network(s) => e == DownloadError::Network(s),
    }
}

/// Maps an attempt's failure to the job's failure cause.
pub fn kind_to_download_error(kind: &HttpFailureKind) -> (e: DownloadError)
    ensures
        cause_of(*kind, e),
{
    match kind {
        HttpFailureKind::AuthExpired => DownloadError::UrlExpired { status: 401 },
        HttpFailureKind::Permanent4xx { status } => DownloadError::UrlExpired { status: *status },
        HttpFailureKind::Server5xx { status } => DownloadError::UrlExpired { status: *status },
        HttpFailureKind::Timeout => DownloadError::Timeout { secs: 0 },
        HttpFailureKind::Quota { .. } => DownloadError::Other(String::from_str("rate limited")),
        HttpFailureKind::Network(s) => DownloadError::Network(s.clone()),
    }
}

/// Whether the refresh loop runs at all: only with resuming enabled and a
/// link refresher at hand; otherwise a job is one plain attempt.
pub fn uses_refresh_loop(resume_enabled: bool, has_refresher: bool) -> (r: bool)
    ensures
        r == (resume_enabled && has_refresher),
{
    resume_enabled && has_refresher
}

/// The next thing the caller of a [`JobDriver`] must do.
#[derive(Debug, Clone, PartialEq, Eq)]
pub enum JobStep {
    /// Run a download attempt against the current link.
    Attempt,
    /// Fetch a fresh link for the same song and quality.
    Refresh,
    /// Delete the `.part` file and its sidecar, then attempt from byte 0.
    DiscardAndRestart,
    /// Finished: the `.part` file is complete.
    Done,
    /// Finished: the job failed with this cause.
    Failed(DownloadError),
}

/// Driver of one resumable job: the machine's state, the refreshes used so
/// far and the refresh budget.
#[derive(Debug)]
pub struct JobDriver {
    pub state: ResumeState,
    pub refreshes_used: u32,
    pub budget: u32,
}

impl JobDriver {
    /// The driver's invariant: never more refreshes than the budget allows.
    pub open spec fn within_budget(&self) -> bool {
        self.refreshes_used <= self.budget
    }

    /// Starts a job whose `.part` file already holds `resume_from` bytes.
    pub fn start(resume_from: u64, budget: u32) -> (r: Result<Self, AppError>)
        ensures
            r matches Ok(d) && d.state == (ResumeState::Ready { resume_from }) && d.refreshes_used
                == 0 && d.budget == budget,
    {
        let st = ResumeState::Init.advance(ResumeEvent::UrlObtained { resume_from });
        match st {
            Ok(state) => Ok(JobDriver { state, refreshes_used: 0, budget }),
            Err(e) => Err(e),
        }
    }

    /// Enters downloading before an attempt (a no-op when already downloading).
    pub fn begin_attempt(&mut self)
        requires
            old(self).state is Ready || old(self).state is Downloading,
        ensures
            final(self).state is Downloading,
            old(self).state matches ResumeState::Ready { resume_from } ==> final(self).state
                == (ResumeState::Downloading { written: resume_from }),
            old(self).state is Downloading ==> final(self).state == old(self).state,
            final(self).refreshes_used == old(self).refreshes_used,
            final(self).budget == old(self).budget,
    {
        if let ResumeState::Ready { resume_from } = self.state {
            self.state = ResumeState::Downloading { written: resume_from };
        }
    }

    /// Records how an attempt ended (`None`: the file was filled) with
    /// `written` bytes now on disk, and says what to do next. A link-level
    /// failure asks for a refresh while the budget lasts and fails the job
    /// once it is used up; any other failure fails the job at once.
    pub fn after_attempt(&mut self, failure: Option<HttpFailureKind>, written: u64) -> (r: Result<
        JobStep,
        AppError,
    >)
        requires
            old(self).state is Downloading,
            old(self).within_budget(),
        ensures
            final(self).within_budget(),
            final(self).budget == old(self).budget,
            r is Ok,
            failure is None ==> r == Ok::<JobStep, AppError>(JobStep::Done) && final(self).state
                == ResumeState::Assembled && final(self).refreshes_used == old(self).refreshes_used,
            failure matches Some(k) ==> (!k.spec_is_url_refreshable() ==> (r matches Ok(
                JobStep::Failed(e),
            ) && cause_of(k, e) && final(self).state == ResumeState::Failed(e)
                && final(self).refreshes_used == old(self).refreshes_used)),
            failure matches Some(k) ==> (k.spec_is_url_refreshable() && old(self).refreshes_used
                < old(self).budget ==> r == Ok::<JobStep, AppError>(JobStep::Refresh)
                && final(self).refreshes_used == old(self).refreshes_used + 1 && final(self).state
                == (ResumeState::Refreshing { written, refreshes_used: 0 })),
            failure matches Some(k) ==> (k.spec_is_url_refreshable() && old(self).refreshes_used
                >= old(self).budget ==> (r matches Ok(JobStep::Failed(e)) && e matches
                DownloadError::Other(m) && m@ == "refresh budget exhausted"@ && final(self).state
                == ResumeState::Failed(e) && final(self).refreshes_used
                == old(self).refreshes_used)),
    {
        let ev = match &failure {
            None => ResumeEvent::AttemptCompleted,
            Some(k) => {
                if k.is_url_refreshable() {
                    ResumeEvent::AttemptUrlExpired { written }
                } else {
                    ResumeEvent::AttemptFatal(kind_to_download_error(k))
                }
            },
        };
        let st = self.state.duplicate();
        let next = match st.advance(ev) {
            Ok(n) => n,
            Err(e) => {
                return Err(e);
            },
        };
        match next {
            ResumeState::Assembled => {
                self.state = ResumeState::Assembled;
                Ok(JobStep::Done)
            },
            ResumeState::Failed(e) => {
                let cause = e.duplicate();
                self.state = ResumeState::Failed(e);
                Ok(JobStep::Failed(cause))
            },
            ResumeState::Refreshing { written: w, refreshes_used: u } => {
                if self.refreshes_used >= self.budget {
                    let failed = ResumeState::Refreshing { written: w, refreshes_used: u }.advance(
                        ResumeEvent::RefreshBudgetExhausted,
                    );
                    match failed {
                        Ok(ResumeState::Failed(e)) => {
                            let cause = e.duplicate();
                            self.state = ResumeState::Failed(e);
                            Ok(JobStep::Failed(cause))
                        },
                        Ok(other) => {
                            self.state = other;
                            Ok(JobStep::Refresh)
                        },
                        Err(e) => Err(e),
                    }
                } else {
                    self.refreshes_used = self.refreshes_used + 1;
                    self.state = ResumeState::Refreshing { written: w, refreshes_used: u };
                    Ok(JobStep::Refresh)
                }
            },
            other => {
                self.state = other;
                Ok(JobStep::Attempt)
            },
        }
    }

    /// Records the outcome of a refresh: the size the fresh link reports, or
    /// the refresh's error message. The same size resumes at `written`;
    /// another size restarts from byte 0 (the caller discards the `.part`
    /// file). A failed refresh is not a transition of `Refreshing`, so the
    /// job ends with `InvalidTransition`.
    pub fn after_refresh(&mut self, refreshed: Result<u64, String>, content_length: u64, written: u64) -> (r: Result<
        JobStep,
        AppError,
    >)
        requires
            old(self).state is Refreshing,
            old(self).within_budget(),
        ensures
            final(self).within_budget(),
            final(self).budget == old(self).budget,
            final(self).refreshes_used == old(self).refreshes_used,
            refreshed matches Ok(size) ==> (size == content_length ==> r == Ok::<JobStep, AppError>(
                JobStep::Attempt,
            ) && final(self).state == (ResumeState::Downloading { written })),
            refreshed matches Ok(size) ==> (size != content_length ==> r == Ok::<JobStep, AppError>(
                JobStep::DiscardAndRestart,
            ) && final(self).state == (ResumeState::Ready { resume_from: 0 })),
            refreshed is Err ==> r matches Err(AppError::InvalidTransition(_)),
    {
        let st = self.state.duplicate();
        let ev = match refreshed {
            Ok(size) => {
                if size != content_length {
                    ResumeEvent::SizeMismatch
                } else {
                    ResumeEvent::RefreshSucceeded { resume_from: written }
                }
            },
            Err(msg) => {
                let mut m = String::from_str("url refresh failed: ");
                push_str(&mut m, msg.as_str());
                ResumeEvent::AttemptFatal(DownloadError::Other(m))
            },
        };
        let is_mismatch = matches!(ev, ResumeEvent::SizeMismatch);
        match st.advance(ev) {
            Ok(n) => {
                self.state = n;
                if is_mismatch {
                    Ok(JobStep::DiscardAndRestart)
                } else {
                    Ok(JobStep::Attempt)
                }
            },
            Err(e) => Err(e),
        }
    }
}

} // verus!
