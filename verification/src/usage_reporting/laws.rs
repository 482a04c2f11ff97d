//! Which reports are published, how often they are tried, and when reporting ends.

use crate::harness_persistence::save_failure;
use crate::harness_usage::{
    attempt_result, error_text, failure_kind, report_error, retry_span, AttemptOutcome,
    CoverageStatus, HarnessUsageContext, HarnessUsageError, HarnessUsageErrorKind,
    HarnessUsageProblem, HarnessUsagePublication, Moment, ReportView, Span,
};
use crate::number;
use crate::text;
use crate::usage_reporting::{
    after_attempt, captured, initialized, settled, LifecycleView, ReporterView, RetryStep,
};
use vstd::prelude::*;
use vstd::string::*;

verus! {

/// A capture is published exactly where it is of some execution and numbered, covers its
/// tokens or its tools at least in part, and is no longer than a mebibyte.
pub proof fn sound_captures_are_published(report: ReportView, length: nat)
    ensures
        report_error(report, length) is None <==> {
            &&& report.execution_id >= 1
            &&& report.capture_sequence >= 1
            &&& report.coverage.token_status == CoverageStatus::Known
                || report.coverage.token_status == CoverageStatus::Partial
                || report.coverage.tool_status == CoverageStatus::Known
                || report.coverage.tool_status == CoverageStatus::Partial
            &&& length <= 1024 * 1024
        },
{
}

/// Without a known problem, the status alone decides what a refusal means; with one, the
/// publication is switched off whatever the status is. What the server says of trying again
/// counts for its own errors only.
pub proof fn refusals_mean_what_they_say(status: u16, problem: Option<HarnessUsageProblem>)
    ensures
        ({
            let kind = failure_kind(status, problem);
            let known = problem matches Some(problem) && (problem.problem_type is Disabled
                || problem.problem_type is Unsupported);
            let stays = problem matches Some(problem) && problem.retryable == Some(false);
            &&& kind is Disabled <==> known || status == 404 || status == 405 || status == 501
            &&& kind is Unauthorized <==> !known && (status == 401 || status == 403)
            &&& kind is Conflict <==> !known && (status == 409 || status == 412)
            &&& kind is Retryable <==> !known && (status == 408 || status == 429 || 500 <= status
                <= 599 && status != 501 && !stays)
            &&& kind !is InvalidResponse
        }),
{
}

/// An attempt succeeds exactly where the server acknowledges this capture, or says that it
/// has a later one; it may be repeated where nothing came back; and a refusal keeps its
/// status and the time that the server asked for.
pub proof fn attempts_end_as_answered(report: ReportView, attempt: AttemptOutcome)
    ensures
        ({
            let r = attempt_result(report, attempt);
            &&& r is Ok <==> {
                &&& attempt matches AttemptOutcome::Acknowledged(p)
                &&& p.execution_id > 0
                &&& p.capture_sequence > 0
                &&& p.status is IgnoredOlderCapture || p.execution_id == report.execution_id
                    && p.capture_sequence == report.capture_sequence
            }
            &&& r is Ok ==> attempt == AttemptOutcome::Acknowledged(r->Ok_0)
            &&& attempt is NotSent || attempt is Interrupted ==> r == Err::<
                HarnessUsagePublication,
                _,
            >(
                HarnessUsageError {
                    kind: HarnessUsageErrorKind::Retryable,
                    status: None,
                    retry_after: None,
                },
            )
            &&& attempt is Unreadable || attempt is Acknowledged && r is Err ==> r
                == Err::<HarnessUsagePublication, _>(
                HarnessUsageError {
                    kind: HarnessUsageErrorKind::InvalidResponse,
                    status: None,
                    retry_after: None,
                },
            )
            &&& attempt matches AttemptOutcome::Refused { status, retry_after, problem }
                ==> r is Err && r->Err_0.status == Some(status) && r->Err_0.retry_after
                == retry_after && r->Err_0.kind == failure_kind(status, problem)
        }),
{
}

/// A span in nanoseconds.
pub open spec fn length_of(span: Span) -> int {
    span.seconds * 1_000_000_000 + span.nanoseconds
}

/// An attempt is repeated exactly where its failure may pass, fewer than three were made and
/// the wait is at most ten seconds; the wait is the longer one of what the server asked for
/// and of the backoff. Everything else is the result.
pub proof fn attempts_are_repeated(
    attempt: usize,
    result: Result<HarnessUsagePublication, HarnessUsageError>,
    backoff: Span,
)
    requires
        backoff.nanoseconds < 1_000_000_000,
        result matches Err(error) && error.retry_after matches Some(span) ==> span.nanoseconds
            < 1_000_000_000,
    ensures
        ({
            let step = after_attempt(attempt, result, backoff);
            let asked = if result is Err && result->Err_0.retry_after is Some {
                length_of(result->Err_0.retry_after->Some_0)
            } else {
                0
            };
            let wait = if asked > length_of(backoff) {
                asked
            } else {
                length_of(backoff)
            };
            &&& step is Sleep <==> result is Err && result->Err_0.kind is Retryable && attempt < 3
                && wait <= 10_000_000_000
            &&& step is Sleep ==> length_of(step->Sleep_0) == wait
            &&& step !is Sleep ==> step == RetryStep::Finish(result)
        }),
{
}

/// The server asks for a number of seconds, or for a moment; anything else asks for nothing.
pub proof fn servers_ask_for_a_wait(
    value: Seq<char>,
    now: Moment,
    date: Option<Moment>,
    seconds: u64,
)
    ensures
        text::trimmed(value) == number::decimal_text(seconds as nat) ==> retry_span(
            value,
            now,
            date,
        ) == Some(Span { seconds, nanoseconds: 0 }),
        number::parsed(text::trimmed(value), u64::MAX as nat) is None && date is None
            ==> retry_span(value, now, date) is None,
{
    number::decimal_round_trip(seconds as nat, u64::MAX as nat);
}

/// Reporting begins once, where the agent's task and its execution are known; the numbers of
/// its captures begin with one and leave none out; and it ends where the server refuses for
/// good or answers what cannot be, and only there.
pub proof fn reporting_has_its_course(
    reporter: ReporterView,
    task_id: Option<Seq<char>>,
    context: Option<HarnessUsageContext>,
    result: Result<HarnessUsagePublication, HarnessUsageError>,
)
    ensures
        reporter.lifecycle !is Uninitialized ==> initialized(reporter, task_id, context)
            == reporter,
        reporter.lifecycle is Uninitialized ==> {
            let next = initialized(reporter, task_id, context);
            let known = task_id is Some && context is Some && context->Some_0.execution_id > 0;
            &&& known ==> next.lifecycle == (LifecycleView::Active {
                task_id: task_id->Some_0,
                execution_id: context->Some_0.execution_id,
            })
            &&& !known ==> next.lifecycle is Disabled
            &&& next.sequence == reporter.sequence
            &&& next.pending == reporter.pending
        },
        ({
            let (next, identity) = captured(reporter);
            &&& identity is Some <==> reporter.lifecycle is Active && reporter.sequence < i64::MAX
            &&& identity is Some ==> next.lifecycle == reporter.lifecycle
            &&& reporter.lifecycle is Active && identity is None ==> next.lifecycle is Disabled
                && next.sequence == reporter.sequence
            &&& reporter.lifecycle !is Active ==> next.lifecycle == reporter.lifecycle
                && next.sequence == reporter.sequence
        }),
        ({
            let next = settled(reporter, result);
            let over = result is Err && (result->Err_0.kind is Disabled
                || result->Err_0.kind is Unauthorized || result->Err_0.kind is Conflict
                || result->Err_0.kind is InvalidResponse);
            &&& over ==> next.lifecycle is Disabled && next.pending is None && next.sequence
                == reporter.sequence
            &&& !over ==> next == reporter
        }),
{
}

/// A save fails where a part of it fails; one failure is told as the cause, and two are told
/// together.
pub proof fn every_failed_save_is_told(transcript: Option<Seq<char>>, block: Option<Seq<char>>)
    ensures
        ({
            let failure = save_failure(transcript, block);
            &&& failure is None <==> transcript is None && block is None
            &&& transcript is Some && block is None ==> failure->Some_0.cause == transcript
                && failure->Some_0.context == "Harness transcript save failed"@
            &&& transcript is None && block is Some ==> failure->Some_0.cause == block
                && failure->Some_0.context == "Harness block snapshot save failed"@
            &&& transcript is Some && block is Some ==> failure->Some_0.cause is None
                && failure->Some_0.context
                == "Harness transcript and block snapshot saves failed: transcript="@
                + transcript->Some_0 + "; block="@ + block->Some_0
        }),
{
}

/// An error is told by the name of its kind, and by its status where it has one.
pub proof fn errors_are_told(error: HarnessUsageError)
    ensures
        ({
            let name = match error.kind {
                HarnessUsageErrorKind::Retryable => "Retryable"@,
                HarnessUsageErrorKind::Disabled => "Disabled"@,
                HarnessUsageErrorKind::Unauthorized => "Unauthorized"@,
                HarnessUsageErrorKind::Conflict => "Conflict"@,
                HarnessUsageErrorKind::InvalidReport => "InvalidReport"@,
                HarnessUsageErrorKind::InvalidResponse => "InvalidResponse"@,
            };
            let status = match error.status {
                Some(status) => "Some("@ + number::decimal_text(status as nat) + ")"@,
                None => "None"@,
            };
            error_text(error) == "Harness usage publication failed: "@ + name + " (HTTP "@ + status
                + ")"@
        }),
{
}

} // verus!
