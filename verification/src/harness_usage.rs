//! Publication of what a harness has used: which captures may be published, what
//! the server's answers mean, and which acknowledgements count.

use crate::local::{refuse, LocalError};
use crate::number;
use crate::text;
use vstd::prelude::*;
use vstd::string::*;

verus! {

pub const MAX_BODY_BYTES: usize = 1024 * 1024;

/// A span of time. There are fewer than a billion nanoseconds.
#[derive(Clone, Copy, PartialEq, Eq, Structural, Debug)]
pub struct Span {
    pub seconds: u64,
    pub nanoseconds: u32,
}

/// A span is at most as long as another one.
pub open spec fn no_longer(a: Span, b: Span) -> bool {
    a.seconds < b.seconds || (a.seconds == b.seconds && a.nanoseconds <= b.nanoseconds)
}

impl Span {
    pub fn from_seconds(seconds: u64) -> (span: Span)
        ensures
            span == (Span { seconds, nanoseconds: 0 }),
    {
        Span { seconds, nanoseconds: 0 }
    }

    /// Whether a span is at most as long as another one.
    pub fn at_most(self, other: Span) -> (r: bool)
        ensures
            r == no_longer(self, other),
    {
        self.seconds < other.seconds || (self.seconds == other.seconds && self.nanoseconds
            <= other.nanoseconds)
    }
}

// ---------------------------------------------------------------------------
// Captures
// ---------------------------------------------------------------------------

/// How much of a category a capture covers.
#[derive(Clone, Copy, PartialEq, Eq, Structural, Debug)]
pub enum CoverageStatus {
    Known,
    Partial,
    Unavailable,
}

#[derive(Clone, Copy, PartialEq, Eq, Structural, Debug)]
pub struct Coverage {
    pub token_status: CoverageStatus,
    pub tool_status: CoverageStatus,
}

#[derive(Clone, Copy, PartialEq, Eq, Structural, Debug)]
pub struct CacheCreation {
    pub ephemeral_5m_input_tokens: Option<i64>,
    pub ephemeral_1h_input_tokens: Option<i64>,
}

/// The tokens that one harness counts.
#[derive(Clone, Copy, PartialEq, Eq, Structural, Debug)]
pub struct ClaudeUsage {
    pub input_tokens: Option<i64>,
    pub output_tokens: Option<i64>,
    pub cache_read_input_tokens: Option<i64>,
    pub cache_creation_input_tokens: Option<i64>,
    pub cache_creation: Option<CacheCreation>,
}

/// The tokens that the other harness counts.
#[derive(Clone, Copy, PartialEq, Eq, Structural, Debug)]
pub struct CodexUsage {
    pub input_tokens: Option<i64>,
    pub cached_input_tokens: Option<i64>,
    pub output_tokens: Option<i64>,
    pub reasoning_output_tokens: Option<i64>,
    pub total_tokens: Option<i64>,
}

/// Tokens with what they were used for.
#[derive(Debug)]
pub struct AttributedUsage<T> {
    pub model: Option<String>,
    pub service_tier: Option<String>,
    pub inference_geo: Option<String>,
    pub speed: Option<String>,
    pub usage: T,
}

#[verifier::ext_equal]
pub struct AttributedUsageView<T> {
    pub model: Option<Seq<char>>,
    pub service_tier: Option<Seq<char>>,
    pub inference_geo: Option<Seq<char>>,
    pub speed: Option<Seq<char>>,
    pub usage: T,
}

impl<T> DeepView for AttributedUsage<T> {
    type V = AttributedUsageView<T>;

    open spec fn deep_view(&self) -> AttributedUsageView<T> {
        AttributedUsageView {
            model: self.model.deep_view(),
            service_tier: self.service_tier.deep_view(),
            inference_geo: self.inference_geo.deep_view(),
            speed: self.speed.deep_view(),
            usage: self.usage,
        }
    }
}

/// The calls of tools, in all and by name. Each name occurs once, in order.
#[derive(Debug)]
pub struct ToolCalls {
    pub total: i64,
    pub by_name: Vec<(String, i64)>,
}

#[verifier::ext_equal]
pub struct ToolCallsView {
    pub total: i64,
    pub by_name: Seq<(Seq<char>, i64)>,
}

impl DeepView for ToolCalls {
    type V = ToolCallsView;

    open spec fn deep_view(&self) -> ToolCallsView {
        ToolCallsView { total: self.total, by_name: self.by_name.deep_view() }
    }
}

#[derive(Debug)]
pub struct UsagePayload<T> {
    pub usage: Option<T>,
    pub attribution: Vec<AttributedUsage<T>>,
    pub tool_calls: Option<ToolCalls>,
}

#[verifier::ext_equal]
pub struct UsagePayloadView<T> {
    pub usage: Option<T>,
    pub attribution: Seq<AttributedUsageView<T>>,
    pub tool_calls: Option<ToolCallsView>,
}

impl<T> DeepView for UsagePayload<T> {
    type V = UsagePayloadView<T>;

    open spec fn deep_view(&self) -> UsagePayloadView<T> {
        UsagePayloadView {
            usage: self.usage,
            attribution: self.attribution.deep_view(),
            tool_calls: self.tool_calls.deep_view(),
        }
    }
}

#[derive(Debug)]
pub enum NativePayload {
    Claude(UsagePayload<ClaudeUsage>),
    Codex(UsagePayload<CodexUsage>),
}

pub enum NativePayloadView {
    Claude(UsagePayloadView<ClaudeUsage>),
    Codex(UsagePayloadView<CodexUsage>),
}

impl DeepView for NativePayload {
    type V = NativePayloadView;

    open spec fn deep_view(&self) -> NativePayloadView {
        match *self {
            NativePayload::Claude(payload) => NativePayloadView::Claude(payload.deep_view()),
            NativePayload::Codex(payload) => NativePayloadView::Codex(payload.deep_view()),
        }
    }
}

/// What was read of a harness. Its scope, its session and its diagnostics stay with
/// the producer.
#[derive(Debug)]
pub struct UsageSnapshot {
    pub coverage: Coverage,
    pub payload: NativePayload,
    pub session: Option<String>,
    pub diagnostics: Vec<String>,
}

fn copy_text(value: &Option<String>) -> (r: Option<String>)
    ensures
        r.deep_view() == value.deep_view(),
{
    match value {
        Some(text) => Some(text.clone()),
        None => None,
    }
}

fn copy_tool_calls(calls: &ToolCalls) -> (r: ToolCalls)
    ensures
        r.deep_view() == calls.deep_view(),
{
    let ghost model = calls.by_name.deep_view();
    let mut by_name: Vec<(String, i64)> = Vec::new();
    let mut i: usize = 0;
    assert(by_name.deep_view() =~= model.take(0));
    while i < calls.by_name.len()
        invariant
            model == calls.by_name.deep_view(),
            i <= calls.by_name@.len(),
            by_name.deep_view() == model.take(i as int),
        decreases calls.by_name@.len() - i,
    {
        let ghost before = by_name.deep_view();
        let entry = (calls.by_name[i].0.clone(), calls.by_name[i].1);
        assert(entry.deep_view() == model[i as int]);
        by_name.push(entry);
        assert(by_name.deep_view() =~= before.push(entry.deep_view()));
        i += 1;
        assert(by_name.deep_view() =~= model.take(i as int));
    }
    assert(model.take(model.len() as int) =~= model);
    ToolCalls { total: calls.total, by_name }
}

fn copy_attribution<T: Copy>(list: &Vec<AttributedUsage<T>>) -> (out: Vec<AttributedUsage<T>>)
    ensures
        out.deep_view() == list.deep_view(),
{
    let ghost model = list.deep_view();
    let mut out: Vec<AttributedUsage<T>> = Vec::new();
    let mut i: usize = 0;
    assert(out.deep_view() =~= model.take(0));
    while i < list.len()
        invariant
            model == list.deep_view(),
            i <= list@.len(),
            out.deep_view() == model.take(i as int),
        decreases list@.len() - i,
    {
        let entry = AttributedUsage {
            model: copy_text(&list[i].model),
            service_tier: copy_text(&list[i].service_tier),
            inference_geo: copy_text(&list[i].inference_geo),
            speed: copy_text(&list[i].speed),
            usage: list[i].usage,
        };
        assert(entry.deep_view() == model[i as int]);
        let ghost before = out.deep_view();
        out.push(entry);
        assert(out.deep_view() =~= before.push(entry.deep_view()));
        i += 1;
        assert(out.deep_view() =~= model.take(i as int));
    }
    assert(model.take(model.len() as int) =~= model);
    out
}

fn copy_payload<T: Copy>(payload: &UsagePayload<T>) -> (r: UsagePayload<T>)
    ensures
        r.deep_view() == payload.deep_view(),
{
    UsagePayload {
        usage: payload.usage,
        attribution: copy_attribution(&payload.attribution),
        tool_calls: match &payload.tool_calls {
            Some(calls) => Some(copy_tool_calls(calls)),
            None => None,
        },
    }
}

/// One cumulative capture, kept unchanged across attempts to publish it. The moment
/// of the capture is in seconds and nanoseconds since the Unix epoch.
#[derive(Debug)]
pub struct HarnessUsageReport {
    pub execution_id: i64,
    pub capture_sequence: i64,
    pub captured_at: (i64, u32),
    pub coverage: Coverage,
    pub payload: NativePayload,
}

#[verifier::ext_equal]
pub struct ReportView {
    pub execution_id: i64,
    pub capture_sequence: i64,
    pub captured_at: (i64, u32),
    pub coverage: Coverage,
    pub payload: NativePayloadView,
}

impl DeepView for HarnessUsageReport {
    type V = ReportView;

    open spec fn deep_view(&self) -> ReportView {
        ReportView {
            execution_id: self.execution_id,
            capture_sequence: self.capture_sequence,
            captured_at: self.captured_at,
            coverage: self.coverage,
            payload: self.payload.deep_view(),
        }
    }
}

/// At least one category of a capture can be used.
pub open spec fn has_usable_category(coverage: Coverage) -> bool {
    !(coverage.token_status is Unavailable) || !(coverage.tool_status is Unavailable)
}

/// What is wrong with a capture and its body, if anything.
pub open spec fn report_error(report: ReportView, length: nat) -> Option<Seq<char>> {
    if report.execution_id <= 0 || report.capture_sequence <= 0 {
        Some("Invalid harness capture identity"@)
    } else if !has_usable_category(report.coverage) {
        Some("No usable harness usage category"@)
    } else if length > MAX_BODY_BYTES {
        Some("Harness usage body exceeds limit"@)
    } else {
        None
    }
}

impl HarnessUsageReport {
    /// The capture of a snapshot, without what stays with its producer.
    pub fn new(
        execution_id: i64,
        capture_sequence: i64,
        captured_at: (i64, u32),
        snapshot: &UsageSnapshot,
    ) -> (report: HarnessUsageReport)
        ensures
            report.deep_view() == (ReportView {
                execution_id,
                capture_sequence,
                captured_at,
                coverage: snapshot.coverage,
                payload: snapshot.payload.deep_view(),
            }),
    {
        let payload = match &snapshot.payload {
            NativePayload::Claude(payload) => NativePayload::Claude(copy_payload(payload)),
            NativePayload::Codex(payload) => NativePayload::Codex(copy_payload(payload)),
        };
        HarnessUsageReport {
            execution_id,
            capture_sequence,
            captured_at,
            coverage: snapshot.coverage,
            payload,
        }
    }

    /// The body of a publication: of a capture with an identity and a usable category,
    /// and within the limit.
    pub fn encode(&self, body: Vec<u8>) -> (r: Result<Vec<u8>, LocalError>)
        ensures
            match report_error(self.deep_view(), body@.len()) {
                None => r matches Ok(out) && out@ == body@,
                Some(message) => r matches Err(error) && error.deep_view() == message,
            },
    {
        if self.execution_id <= 0 || self.capture_sequence <= 0 {
            return Err(refuse("Invalid harness capture identity"));
        }
        if self.coverage.token_status == CoverageStatus::Unavailable && self.coverage.tool_status
            == CoverageStatus::Unavailable {
            return Err(refuse("No usable harness usage category"));
        }
        if body.len() > MAX_BODY_BYTES {
            return Err(refuse("Harness usage body exceeds limit"));
        }
        Ok(body)
    }
}

// ---------------------------------------------------------------------------
// Contexts and answers
// ---------------------------------------------------------------------------

/// The execution that owns the reports, given only by an authenticated startup with
/// reporting enabled.
#[derive(Clone, Copy, PartialEq, Eq, Structural, Debug)]
pub struct HarnessUsageContext {
    pub execution_id: i64,
}

/// The context that a startup gave, if it is a usable one. Malformed data must not
/// break anything else.
pub fn usable_context(context: Option<HarnessUsageContext>) -> (r: Option<HarnessUsageContext>)
    ensures
        r == (match context {
            Some(given) => if given.execution_id > 0 {
                Some(given)
            } else {
                None
            },
            None => None,
        }),
{
    match context {
        Some(given) => {
            if given.execution_id > 0 {
                Some(given)
            } else {
                None
            }
        },
        None => None,
    }
}

/// What the server did with a capture.
#[derive(Clone, Copy, PartialEq, Eq, Structural, Debug)]
pub enum HarnessUsagePublicationStatus {
    /// The capture is the newest one now.
    Accepted,
    /// The server had a newer capture already.
    IgnoredOlderCapture,
    /// The server had this very capture already.
    Idempotent,
}

/// The server's acknowledgement: of which capture it has now.
#[derive(Clone, Copy, PartialEq, Eq, Structural, Debug)]
pub struct HarnessUsagePublication {
    pub status: HarnessUsagePublicationStatus,
    pub execution_id: i64,
    pub capture_sequence: i64,
}

/// Whether a publication may be tried again, or ends for this execution.
#[derive(Clone, Copy, PartialEq, Eq, Structural, Debug)]
pub enum HarnessUsageErrorKind {
    Retryable,
    /// The server does not support publication, or has disabled it.
    Disabled,
    Unauthorized,
    /// The capture conflicts with the server's state of the execution.
    Conflict,
    InvalidReport,
    /// A successful response did not acknowledge a valid capture.
    InvalidResponse,
}

/// Why a publication failed. No body and no credential is kept.
#[derive(Clone, Copy, PartialEq, Eq, Structural, Debug)]
pub struct HarnessUsageError {
    pub kind: HarnessUsageErrorKind,
    pub status: Option<u16>,
    pub retry_after: Option<Span>,
}

/// What the server says of a failure.
#[derive(Clone, Copy, PartialEq, Eq, Structural, Debug)]
pub enum HarnessUsageProblemType {
    Disabled,
    Unsupported,
    Unknown,
}

#[derive(Clone, Copy, PartialEq, Eq, Structural, Debug)]
pub struct HarnessUsageProblem {
    pub problem_type: HarnessUsageProblemType,
    pub retryable: Option<bool>,
}

/// The kind of a problem by its name in a response.
pub open spec fn problem_named(name: Seq<char>) -> HarnessUsageProblemType {
    if name == "https://docs.warp.dev/errors/feature_not_available"@ {
        HarnessUsageProblemType::Disabled
    } else if name == "https://docs.warp.dev/errors/operation_not_supported"@ {
        HarnessUsageProblemType::Unsupported
    } else {
        HarnessUsageProblemType::Unknown
    }
}

impl HarnessUsageProblemType {
    /// The kind of a problem by its name in a response.
    pub fn named(name: &str) -> (r: HarnessUsageProblemType)
        ensures
            r == problem_named(name@),
    {
        if text::same(name, "https://docs.warp.dev/errors/feature_not_available") {
            HarnessUsageProblemType::Disabled
        } else if text::same(name, "https://docs.warp.dev/errors/operation_not_supported") {
            HarnessUsageProblemType::Unsupported
        } else {
            HarnessUsageProblemType::Unknown
        }
    }
}

/// The kind of a failure: what the server says of it counts first, then its status.
/// A server's error passes by itself unless the server says that it does not.
pub open spec fn failure_kind(
    status: u16,
    problem: Option<HarnessUsageProblem>,
) -> HarnessUsageErrorKind {
    let unavailable = problem is Some && !(problem->Some_0.problem_type is Unknown);
    let final_failure = problem is Some && problem->Some_0.retryable == Some(false);
    if unavailable || status == 404 || status == 405 || status == 501 {
        HarnessUsageErrorKind::Disabled
    } else if status == 401 || status == 403 {
        HarnessUsageErrorKind::Unauthorized
    } else if status == 409 || status == 412 {
        HarnessUsageErrorKind::Conflict
    } else if status == 408 || status == 429 || (500 <= status < 600 && !final_failure) {
        HarnessUsageErrorKind::Retryable
    } else {
        HarnessUsageErrorKind::InvalidReport
    }
}

/// The name of a kind of failure.
pub open spec fn kind_name(kind: HarnessUsageErrorKind) -> Seq<char> {
    match kind {
        HarnessUsageErrorKind::Retryable => "Retryable"@,
        HarnessUsageErrorKind::Disabled => "Disabled"@,
        HarnessUsageErrorKind::Unauthorized => "Unauthorized"@,
        HarnessUsageErrorKind::Conflict => "Conflict"@,
        HarnessUsageErrorKind::InvalidReport => "InvalidReport"@,
        HarnessUsageErrorKind::InvalidResponse => "InvalidResponse"@,
    }
}

/// The text of a failure: its kind and the status of the response, and nothing of what
/// the response or a credential held.
pub open spec fn error_text(error: HarnessUsageError) -> Seq<char> {
    "Harness usage publication failed: "@ + kind_name(error.kind) + " (HTTP "@ + (
    match error.status {
        Some(status) => "Some("@ + number::decimal_text(status as nat) + ")"@,
        None => "None"@,
    }) + ")"@
}

impl HarnessUsageError {
    /// The failure in one line: its kind and the status of the response.
    pub fn to_line(&self) -> (line: String)
        ensures
            line@ == error_text(*self),
    {
        let mut line = "Harness usage publication failed: ".to_owned();
        line.append(
            match self.kind {
                HarnessUsageErrorKind::Retryable => "Retryable",
                HarnessUsageErrorKind::Disabled => "Disabled",
                HarnessUsageErrorKind::Unauthorized => "Unauthorized",
                HarnessUsageErrorKind::Conflict => "Conflict",
                HarnessUsageErrorKind::InvalidReport => "InvalidReport",
                HarnessUsageErrorKind::InvalidResponse => "InvalidResponse",
            },
        );
        line.append(" (HTTP ");
        let status = match self.status {
            Some(status) => {
                let mut text = "Some(".to_owned();
                text.append(number::decimal(status as u64).as_str());
                text.append(")");
                text
            },
            None => "None".to_owned(),
        };
        line.append(status.as_str());
        line.append(")");
        line
    }

    pub fn new(kind: HarnessUsageErrorKind) -> (error: HarnessUsageError)
        ensures
            error == (HarnessUsageError { kind, status: None, retry_after: None }),
    {
        HarnessUsageError { kind, status: None, retry_after: None }
    }

    /// The failure that a response without success means.
    pub fn from_response(
        status: u16,
        retry_after: Option<Span>,
        problem: Option<HarnessUsageProblem>,
    ) -> (error: HarnessUsageError)
        ensures
            error == (HarnessUsageError {
                kind: failure_kind(status, problem),
                status: Some(status),
                retry_after,
            }),
    {
        let (unavailable, final_failure) = match problem {
            Some(problem) => (
                problem.problem_type != HarnessUsageProblemType::Unknown,
                match problem.retryable {
                    Some(retryable) => !retryable,
                    None => false,
                },
            ),
            None => (false, false),
        };
        let kind = if unavailable || status == 404 || status == 405 || status == 501 {
            HarnessUsageErrorKind::Disabled
        } else if status == 401 || status == 403 {
            HarnessUsageErrorKind::Unauthorized
        } else if status == 409 || status == 412 {
            HarnessUsageErrorKind::Conflict
        } else if status == 408 || status == 429 || (500 <= status && status < 600
            && !final_failure) {
            HarnessUsageErrorKind::Retryable
        } else {
            HarnessUsageErrorKind::InvalidReport
        };
        HarnessUsageError { kind, status: Some(status), retry_after }
    }
}

// ---------------------------------------------------------------------------
// When to try again
// ---------------------------------------------------------------------------

/// A moment: seconds since the Unix epoch without leap seconds, and nanoseconds. In a
/// leap second there are a billion of these or more.
pub type Moment = (i64, u32);

/// The moment that `chrono::DateTime::parse_from_rfc2822` reads, if the text is a date
/// in the form of RFC 2822.
pub uninterp spec fn moment_named(date: Seq<char>) -> Option<(i64, u32)>;

/// `chrono::DateTime::parse_from_rfc2822`: the moment that a date names, as its
/// `timestamp` and its `timestamp_subsec_nanos`, and nothing for any other text.
#[verifier::external_body]
fn parse_date(date: &str) -> (r: Option<(i64, u32)>)
    ensures
        r == moment_named(date@),
{
    let moment = chrono::DateTime::parse_from_rfc2822(date).ok()?;
    Some((moment.timestamp(), moment.timestamp_subsec_nanos()))
}

/// The second of the day.
pub open spec fn time_of_day(seconds: i64) -> int {
    seconds as int % 86400
}

/// The nanoseconds from one moment to another. A leap second that lies between them
/// by the time of day is counted.
pub open spec fn nanoseconds_between(from: Moment, to: Moment) -> int {
    let leap: int = if time_of_day(to.0) > time_of_day(from.0) && from.1 >= 1_000_000_000 {
        1
    } else if time_of_day(to.0) < time_of_day(from.0) && to.1 >= 1_000_000_000 {
        -1
    } else {
        0
    };
    (to.0 - from.0 + leap) * 1_000_000_000 + to.1 - from.1
}

/// The span from one moment to another: nothing if the other has passed. A span that
/// its seconds cannot hold is the longest one.
pub open spec fn span_between(from: Moment, to: Moment) -> Span {
    let n = nanoseconds_between(from, to);
    if n <= 0 {
        Span { seconds: 0, nanoseconds: 0 }
    } else if n / 1_000_000_000 > u64::MAX {
        Span { seconds: u64::MAX, nanoseconds: 999_999_999 }
    } else {
        Span {
            seconds: (n / 1_000_000_000) as u64,
            nanoseconds: (n % 1_000_000_000) as u32,
        }
    }
}

fn second_of_day(seconds: i64) -> (r: i128)
    ensures
        r == time_of_day(seconds),
{
    let whole_days: i128 = 9_223_372_036_854_806_400;
    proof {
        vstd::arithmetic::div_mod::lemma_mod_multiples_vanish(
            106_751_991_167_301,
            seconds as int,
            86400,
        );
    }
    (seconds as i128 + whole_days) % 86400
}

/// The span from one moment to another.
pub fn time_until(from: Moment, to: Moment) -> (span: Span)
    ensures
        span == span_between(from, to),
{
    let at: i128 = second_of_day(from.0);
    let then_at: i128 = second_of_day(to.0);
    let leap: i128 = if then_at > at && from.1 >= 1_000_000_000 {
        1
    } else if then_at < at && to.1 >= 1_000_000_000 {
        -1
    } else {
        0
    };
    let n: i128 = (to.0 as i128 - from.0 as i128 + leap) * 1_000_000_000 + to.1 as i128
        - from.1 as i128;
    if n <= 0 {
        return Span { seconds: 0, nanoseconds: 0 };
    }
    let seconds: i128 = n / 1_000_000_000;
    if seconds > u64::MAX as i128 {
        return Span { seconds: u64::MAX, nanoseconds: 999_999_999 };
    }
    Span { seconds: seconds as u64, nanoseconds: (n % 1_000_000_000) as u32 }
}

/// The span that a header asks for: a number of seconds, or else the span until the
/// moment that it names.
pub open spec fn retry_span(value: Seq<char>, now: Moment, date: Option<Moment>) -> Option<Span> {
    match number::parsed(text::trimmed(value), u64::MAX as nat) {
        Some(seconds) => Some(Span { seconds: seconds as u64, nanoseconds: 0 }),
        None => match date {
            Some(moment) => Some(span_between(now, moment)),
            None => None,
        },
    }
}

/// The span that a header asks for, where `date` is the moment that it names, if it
/// names one.
pub fn choose_retry_after(value: &str, now: Moment, date: Option<Moment>) -> (r: Option<Span>)
    ensures
        r == retry_span(value@, now, date),
{
    match number::parse(text::trim(value).as_str(), u64::MAX) {
        Some(seconds) => Some(Span { seconds, nanoseconds: 0 }),
        None => match date {
            Some(moment) => Some(time_until(now, moment)),
            None => None,
        },
    }
}

/// The span that a header asks for, at a moment.
pub fn parse_harness_usage_retry_after(value: &str, now: Moment) -> (r: Option<Span>)
    ensures
        r == retry_span(value@, now, moment_named(value@)),
{
    choose_retry_after(value, now, parse_date(value))
}

/// A date that has passed asks for no delay, and a later one for exactly the time that
/// is left. Neither moment lies in a leap second.
pub proof fn dates_ask_for_the_time_that_is_left(now: Moment, date: Moment)
    requires
        now.1 < 1_000_000_000,
        date.1 < 1_000_000_000,
    ensures
        date.0 < now.0 || (date.0 == now.0 && date.1 <= now.1) ==> span_between(now, date) == (
        Span { seconds: 0, nanoseconds: 0 }),
        date.0 > now.0 || (date.0 == now.0 && date.1 >= now.1) ==> {
            let span = span_between(now, date);
            &&& span.nanoseconds < 1_000_000_000
            &&& now.0 * 1_000_000_000 + now.1 + span.seconds * 1_000_000_000 + span.nanoseconds
                == date.0 * 1_000_000_000 + date.1
        },
{
}

// ---------------------------------------------------------------------------
// One attempt
// ---------------------------------------------------------------------------

/// The acknowledgement is of the published capture, or of a newer one.
pub open spec fn acknowledges(report: ReportView, publication: HarnessUsagePublication) -> bool {
    &&& publication.execution_id > 0
    &&& publication.capture_sequence > 0
    &&& publication.status is IgnoredOlderCapture || (publication.execution_id
        == report.execution_id && publication.capture_sequence == report.capture_sequence)
}

/// What came of one attempt.
#[derive(Clone, Copy, PartialEq, Eq, Structural, Debug)]
pub enum AttemptOutcome {
    /// The request could not be prepared or sent.
    NotSent,
    /// The server answered without success.
    Refused { status: u16, retry_after: Option<Span>, problem: Option<HarnessUsageProblem> },
    /// The server's answer could not be read to its end.
    Interrupted,
    /// The server's answer is not an acknowledgement.
    Unreadable,
    Acknowledged(HarnessUsagePublication),
}

/// The result of an attempt to publish a capture.
pub open spec fn attempt_result(report: ReportView, attempt: AttemptOutcome) -> Result<
    HarnessUsagePublication,
    HarnessUsageError,
> {
    match attempt {
        AttemptOutcome::NotSent | AttemptOutcome::Interrupted => Err(
            HarnessUsageError {
                kind: HarnessUsageErrorKind::Retryable,
                status: None,
                retry_after: None,
            },
        ),
        AttemptOutcome::Refused { status, retry_after, problem } => Err(
            HarnessUsageError {
                kind: failure_kind(status, problem),
                status: Some(status),
                retry_after,
            },
        ),
        AttemptOutcome::Unreadable => Err(
            HarnessUsageError {
                kind: HarnessUsageErrorKind::InvalidResponse,
                status: None,
                retry_after: None,
            },
        ),
        AttemptOutcome::Acknowledged(publication) => if acknowledges(report, publication) {
            Ok(publication)
        } else {
            Err(
                HarnessUsageError {
                    kind: HarnessUsageErrorKind::InvalidResponse,
                    status: None,
                    retry_after: None,
                },
            )
        },
    }
}

/// The body of a publication that can be sent, or the failure that it cannot.
pub fn prepare_publication(report: &HarnessUsageReport, body: Vec<u8>) -> (r: Result<
    Vec<u8>,
    HarnessUsageError,
>)
    ensures
        match report_error(report.deep_view(), body@.len()) {
            None => r matches Ok(out) && out@ == body@,
            Some(_) => r == Err::<Vec<u8>, HarnessUsageError>(
                HarnessUsageError {
                    kind: HarnessUsageErrorKind::InvalidReport,
                    status: None,
                    retry_after: None,
                },
            ),
        },
{
    match report.encode(body) {
        Ok(body) => Ok(body),
        Err(_) => Err(HarnessUsageError::new(HarnessUsageErrorKind::InvalidReport)),
    }
}

/// The result of an attempt to publish a capture.
pub fn finish_publication(report: &HarnessUsageReport, attempt: AttemptOutcome) -> (r: Result<
    HarnessUsagePublication,
    HarnessUsageError,
>)
    ensures
        r == attempt_result(report.deep_view(), attempt),
{
    match attempt {
        AttemptOutcome::NotSent | AttemptOutcome::Interrupted => Err(
            HarnessUsageError::new(HarnessUsageErrorKind::Retryable),
        ),
        AttemptOutcome::Refused { status, retry_after, problem } => Err(
            HarnessUsageError::from_response(status, retry_after, problem),
        ),
        AttemptOutcome::Unreadable => Err(
            HarnessUsageError::new(HarnessUsageErrorKind::InvalidResponse),
        ),
        AttemptOutcome::Acknowledged(publication) => {
            let own = publication.execution_id == report.execution_id
                && publication.capture_sequence == report.capture_sequence;
            if publication.execution_id <= 0 || publication.capture_sequence <= 0 || (
            publication.status != HarnessUsagePublicationStatus::IgnoredOlderCapture && !own) {
                return Err(HarnessUsageError::new(HarnessUsageErrorKind::InvalidResponse));
            }
            Ok(publication)
        },
    }
}

} // verus!
