//! The reports of one execution: begun once, numbered one after the other, and
//! ended for good when the server will take no more.

use crate::harness_usage::{
    no_longer, HarnessUsageContext, HarnessUsageError, HarnessUsageErrorKind,
    HarnessUsagePublication, HarnessUsageReport, ReportView, Span, UsageSnapshot,
};
use vstd::prelude::*;

pub mod laws;

verus! {

pub const MAX_PUBLICATION_ATTEMPTS: usize = 3;

/// How long one attempt may take, and how long the next one may be put off.
pub const REQUEST_TIMEOUT_SECONDS: u64 = 10;

/// Begins uninitialized, becomes active or disabled once, and goes from active to
/// disabled only.
#[derive(Debug)]
pub enum ReportingLifecycle {
    Uninitialized,
    Disabled,
    /// Reports are published, for one execution of one agent.
    Active { task_id: String, execution_id: i64 },
}

pub enum LifecycleView {
    Uninitialized,
    Disabled,
    Active { task_id: Seq<char>, execution_id: i64 },
}

impl DeepView for ReportingLifecycle {
    type V = LifecycleView;

    open spec fn deep_view(&self) -> LifecycleView {
        match *self {
            ReportingLifecycle::Uninitialized => LifecycleView::Uninitialized,
            ReportingLifecycle::Disabled => LifecycleView::Disabled,
            ReportingLifecycle::Active { task_id, execution_id } => LifecycleView::Active {
                task_id: task_id@,
                execution_id,
            },
        }
    }
}

/// The identity of one capture.
#[derive(Clone, Copy, PartialEq, Eq, Structural, Debug)]
pub struct CaptureIdentity {
    pub execution_id: i64,
    pub sequence: i64,
}

/// What was read of a harness: a snapshot, or why there is none.
#[derive(Debug)]
pub enum ExtractionOutcome {
    Usable(UsageSnapshot),
    Unavailable(Vec<String>),
}

impl CaptureIdentity {
    /// The report of what was read, if it can be used.
    pub fn build_usage_report(self, captured_at: (i64, u32), extracted: &ExtractionOutcome) -> (r:
        Option<HarnessUsageReport>)
        ensures
            r.deep_view() == (match *extracted {
                ExtractionOutcome::Usable(snapshot) => Some(
                    ReportView {
                        execution_id: self.execution_id,
                        capture_sequence: self.sequence,
                        captured_at,
                        coverage: snapshot.coverage,
                        payload: snapshot.payload.deep_view(),
                    },
                ),
                ExtractionOutcome::Unavailable(_) => None,
            }),
    {
        match extracted {
            ExtractionOutcome::Usable(snapshot) => Some(
                HarnessUsageReport::new(self.execution_id, self.sequence, captured_at, snapshot),
            ),
            ExtractionOutcome::Unavailable(_) => None,
        }
    }
}

/// The state of an execution's reports, which the ordered saves of its runner move on.
#[derive(Debug)]
pub struct UsageReporter {
    lifecycle: ReportingLifecycle,
    sequence: i64,
    pending: Option<HarnessUsageReport>,
}

#[verifier::ext_equal]
pub struct ReporterView {
    pub lifecycle: LifecycleView,
    pub sequence: i64,
    pub pending: Option<ReportView>,
}

impl DeepView for UsageReporter {
    type V = ReporterView;

    closed spec fn deep_view(&self) -> ReporterView {
        ReporterView {
            lifecycle: self.lifecycle.deep_view(),
            sequence: self.sequence,
            pending: self.pending.deep_view(),
        }
    }
}

/// What a startup makes of the reports: they become active only with a task and a
/// context, and only once.
pub open spec fn initialized(
    reporter: ReporterView,
    task_id: Option<Seq<char>>,
    context: Option<HarnessUsageContext>,
) -> ReporterView {
    if !(reporter.lifecycle is Uninitialized) {
        reporter
    } else {
        ReporterView {
            lifecycle: match (task_id, context) {
                (Some(task_id), Some(context)) => if context.execution_id > 0 {
                    LifecycleView::Active { task_id, execution_id: context.execution_id }
                } else {
                    LifecycleView::Disabled
                },
                _ => LifecycleView::Disabled,
            },
            ..reporter
        }
    }
}

/// A capture begins: what was staged before is dropped, and the next number is
/// given. When all numbers were given, the reports end.
pub open spec fn captured(reporter: ReporterView) -> (ReporterView, Option<CaptureIdentity>) {
    let cleared = ReporterView { pending: None, ..reporter };
    match reporter.lifecycle {
        LifecycleView::Active { execution_id, .. } => if reporter.sequence == i64::MAX {
            (ReporterView { lifecycle: LifecycleView::Disabled, ..cleared }, None)
        } else {
            let sequence = (reporter.sequence + 1) as i64;
            (
                ReporterView { sequence, ..cleared },
                Some(CaptureIdentity { execution_id, sequence }),
            )
        },
        _ => (cleared, None),
    }
}

/// A failure after which an execution's reports end.
pub open spec fn ends_reporting(kind: HarnessUsageErrorKind) -> bool {
    ||| kind is Disabled
    ||| kind is Unauthorized
    ||| kind is Conflict
    ||| kind is InvalidResponse
}

/// What the result of a publication makes of the reports.
pub open spec fn settled(
    reporter: ReporterView,
    result: Result<HarnessUsagePublication, HarnessUsageError>,
) -> ReporterView {
    match result {
        Ok(_) => reporter,
        Err(error) => if ends_reporting(error.kind) {
            ReporterView { lifecycle: LifecycleView::Disabled, pending: None, ..reporter }
        } else {
            reporter
        },
    }
}

impl UsageReporter {
    pub fn new() -> (reporter: UsageReporter)
        ensures
            reporter.deep_view() == (ReporterView {
                lifecycle: LifecycleView::Uninitialized,
                sequence: 0,
                pending: None,
            }),
    {
        UsageReporter {
            lifecycle: ReportingLifecycle::Uninitialized,
            sequence: 0,
            pending: None,
        }
    }

    /// Begins the reports of an execution, if its startup allows for them.
    pub fn initialize(&mut self, task_id: Option<String>, context: Option<HarnessUsageContext>)
        ensures
            final(self).deep_view() == initialized(
                old(self).deep_view(),
                task_id.deep_view(),
                context,
            ),
    {
        match &self.lifecycle {
            ReportingLifecycle::Uninitialized => {},
            _ => return,
        }
        self.lifecycle = match (task_id, context) {
            (Some(task_id), Some(context)) => {
                if context.execution_id > 0 {
                    ReportingLifecycle::Active { task_id, execution_id: context.execution_id }
                } else {
                    ReportingLifecycle::Disabled
                }
            },
            _ => ReportingLifecycle::Disabled,
        };
    }

    pub fn is_enabled(&self) -> (r: bool)
        ensures
            r == (self.deep_view().lifecycle is Active),
    {
        match &self.lifecycle {
            ReportingLifecycle::Active { .. } => true,
            _ => false,
        }
    }

    /// Begins a capture.
    pub fn begin_capture(&mut self) -> (r: Option<CaptureIdentity>)
        ensures
            (final(self).deep_view(), r) == captured(old(self).deep_view()),
    {
        self.pending = None;
        let execution_id = match &self.lifecycle {
            ReportingLifecycle::Active { execution_id, .. } => *execution_id,
            _ => return None,
        };
        match self.sequence.checked_add(1) {
            Some(next) => {
                self.sequence = next;
                Some(CaptureIdentity { execution_id, sequence: next })
            },
            None => {
                self.lifecycle = ReportingLifecycle::Disabled;
                None
            },
        }
    }

    /// Stages the report of a transcript that was uploaded.
    pub fn stage_uploaded_report(&mut self, report: Option<HarnessUsageReport>)
        ensures
            final(self).deep_view() == (ReporterView {
                pending: report.deep_view(),
                ..old(self).deep_view()
            }),
    {
        self.pending = report;
    }

    /// Takes the staged report for its publication, with the task that it is for.
    pub fn take_staged(&mut self) -> (r: Option<(String, HarnessUsageReport)>)
        ensures
            match (old(self).deep_view().lifecycle, old(self).deep_view().pending) {
                (LifecycleView::Active { task_id, .. }, Some(report)) => {
                    &&& r matches Some((task, taken)) && task@ == task_id && taken.deep_view()
                        == report
                    &&& final(self).deep_view() == (ReporterView {
                        pending: None,
                        ..old(self).deep_view()
                    })
                },
                _ => r is None && final(self).deep_view() == old(self).deep_view(),
            },
    {
        let task_id = match &self.lifecycle {
            ReportingLifecycle::Active { task_id, .. } => task_id.clone(),
            _ => return None,
        };
        match self.pending.take() {
            Some(report) => Some((task_id, report)),
            None => None,
        }
    }

    /// Takes the result of a publication.
    pub fn settle(&mut self, result: Result<HarnessUsagePublication, HarnessUsageError>)
        ensures
            final(self).deep_view() == settled(old(self).deep_view(), result),
    {
        if let Err(error) = result {
            match error.kind {
                HarnessUsageErrorKind::Disabled | HarnessUsageErrorKind::Unauthorized
                | HarnessUsageErrorKind::Conflict | HarnessUsageErrorKind::InvalidResponse => {
                    self.lifecycle = ReportingLifecycle::Disabled;
                    self.pending = None;
                },
                _ => {},
            }
        }
    }
}

// ---------------------------------------------------------------------------
// Attempts
// ---------------------------------------------------------------------------

/// What follows an attempt.
#[derive(Clone, Copy, Debug)]
pub enum RetryStep {
    /// Wait, and try once more.
    Sleep(Span),
    Finish(Result<HarnessUsagePublication, HarnessUsageError>),
}

/// The longer of two spans.
pub open spec fn longer(a: Span, b: Span) -> Span {
    if no_longer(a, b) {
        b
    } else {
        a
    }
}

pub open spec fn retry_delay(error: HarnessUsageError, backoff: Span) -> Span {
    longer(
        match error.retry_after {
            Some(span) => span,
            None => Span { seconds: 0, nanoseconds: 0 },
        },
        backoff,
    )
}

/// What follows the attempt with this number: a failure that may pass is tried
/// again a few times, but a server cannot put the next attempt off for long.
pub open spec fn after_attempt(
    attempt: usize,
    result: Result<HarnessUsagePublication, HarnessUsageError>,
    backoff: Span,
) -> RetryStep {
    match result {
        Err(error) => if error.kind is Retryable && attempt < MAX_PUBLICATION_ATTEMPTS
            && no_longer(
            retry_delay(error, backoff),
            Span { seconds: REQUEST_TIMEOUT_SECONDS, nanoseconds: 0 },
        ) {
            RetryStep::Sleep(retry_delay(error, backoff))
        } else {
            RetryStep::Finish(result)
        },
        Ok(_) => RetryStep::Finish(result),
    }
}

/// What follows the attempt with this number. The time before the next one is at
/// least `backoff`, which is `publication_backoff` with some chance added.
pub fn retry_step(
    attempt: usize,
    result: Result<HarnessUsagePublication, HarnessUsageError>,
    backoff: Span,
) -> (step: RetryStep)
    ensures
        step == after_attempt(attempt, result, backoff),
{
    match result {
        Err(error) => {
            if error.kind != HarnessUsageErrorKind::Retryable || attempt
                >= MAX_PUBLICATION_ATTEMPTS {
                return RetryStep::Finish(result);
            }
            let asked = match error.retry_after {
                Some(span) => span,
                None => Span { seconds: 0, nanoseconds: 0 },
            };
            let delay = if asked.at_most(backoff) {
                backoff
            } else {
                asked
            };
            if !delay.at_most(Span { seconds: REQUEST_TIMEOUT_SECONDS, nanoseconds: 0 }) {
                return RetryStep::Finish(result);
            }
            RetryStep::Sleep(delay)
        },
        Ok(_) => RetryStep::Finish(result),
    }
}

/// The seconds before the attempt that follows this one, without what chance adds.
pub fn publication_backoff(attempt: usize) -> (seconds: u64)
    ensures
        seconds == (if attempt == 1 {
            1int
        } else {
            2
        }),
{
    if attempt == 1 {
        1
    } else {
        2
    }
}

// ---------------------------------------------------------------------------
// Laws
// ---------------------------------------------------------------------------

/// Reports that have ended stay ended: nothing makes them active again, and no
/// capture gets an identity.
pub proof fn ended_reports_stay_ended(
    reporter: ReporterView,
    task_id: Option<Seq<char>>,
    context: Option<HarnessUsageContext>,
    result: Result<HarnessUsagePublication, HarnessUsageError>,
)
    requires
        reporter.lifecycle is Disabled,
    ensures
        initialized(reporter, task_id, context).lifecycle is Disabled,
        captured(reporter).0.lifecycle is Disabled,
        captured(reporter).1 is None,
        settled(reporter, result).lifecycle is Disabled,
{
}

/// Captures of an execution are numbered one after the other.
pub proof fn captures_are_numbered(reporter: ReporterView)
    ensures
        captured(reporter).1 matches Some(identity) ==> {
            &&& identity.sequence == reporter.sequence + 1
            &&& captured(reporter).0.sequence == identity.sequence
            &&& reporter.lifecycle matches LifecycleView::Active { task_id, execution_id }
                && execution_id == identity.execution_id
        },
        captured(reporter).0.pending is None,
{
}

/// A publication is tried a few times at most, and never put off for longer than one
/// attempt may take.
pub proof fn attempts_are_bounded(
    attempt: usize,
    result: Result<HarnessUsagePublication, HarnessUsageError>,
    backoff: Span,
)
    ensures
        attempt >= MAX_PUBLICATION_ATTEMPTS ==> after_attempt(attempt, result, backoff)
            == RetryStep::Finish(result),
        after_attempt(attempt, result, backoff) matches RetryStep::Sleep(delay) ==> no_longer(
            delay,
            Span { seconds: REQUEST_TIMEOUT_SECONDS, nanoseconds: 0 },
        ) && no_longer(backoff, delay),
{
}

} // verus!
