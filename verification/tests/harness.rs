use persistent_workspaces::harness_persistence::{
    save_transcript_and_block, HarnessPersistence, PersistenceOutcome, SaveError,
};
use persistent_workspaces::harness_usage::{
    choose_retry_after, finish_publication, parse_harness_usage_retry_after, prepare_publication,
    time_until, usable_context, AttemptOutcome, AttributedUsage, CodexUsage, Coverage, CoverageStatus,
    HarnessUsageContext, HarnessUsageError, HarnessUsageErrorKind, HarnessUsageProblem,
    HarnessUsageProblemType, HarnessUsagePublication, HarnessUsagePublicationStatus as Status,
    HarnessUsageReport, NativePayload, Span, ToolCalls, UsagePayload, UsageSnapshot,
    MAX_BODY_BYTES,
};
use persistent_workspaces::usage_reporting::{
    publication_backoff, retry_step, CaptureIdentity, ExtractionOutcome, RetryStep, UsageReporter,
};

fn snapshot() -> UsageSnapshot {
    UsageSnapshot {
        coverage: Coverage {
            token_status: CoverageStatus::Known,
            tool_status: CoverageStatus::Known,
        },
        payload: NativePayload::Codex(UsagePayload {
            usage: Some(CodexUsage {
                input_tokens: Some(10),
                cached_input_tokens: None,
                output_tokens: Some(4),
                reasoning_output_tokens: None,
                total_tokens: Some(14),
            }),
            attribution: vec![AttributedUsage {
                model: Some("large".into()),
                service_tier: None,
                inference_geo: None,
                speed: None,
                usage: CodexUsage {
                    input_tokens: Some(1),
                    cached_input_tokens: None,
                    output_tokens: None,
                    reasoning_output_tokens: None,
                    total_tokens: None,
                },
            }],
            tool_calls: Some(ToolCalls { total: 2, by_name: vec![("shell".into(), 2)] }),
        }),
        session: Some("local".into()),
        diagnostics: vec!["local".into()],
    }
}

fn report() -> HarnessUsageReport {
    HarnessUsageReport::new(7, 3, (1_767_268_800, 0), &snapshot())
}

#[test]
fn rejects_invalid_unusable_and_oversized_requests() {
    let mut request = report();
    request.execution_id = 0;
    assert_eq!(
        request.encode(vec![1]).unwrap_err().message,
        "Invalid harness capture identity"
    );

    let mut request = report();
    request.coverage.token_status = CoverageStatus::Unavailable;
    request.coverage.tool_status = CoverageStatus::Unavailable;
    assert_eq!(
        request.encode(vec![1]).unwrap_err().message,
        "No usable harness usage category"
    );

    request.coverage.tool_status = CoverageStatus::Known;
    assert_eq!(
        request.encode(vec![0; MAX_BODY_BYTES + 1]).unwrap_err().message,
        "Harness usage body exceeds limit"
    );
    assert_eq!(request.encode(vec![1, 2]).unwrap(), [1, 2]);
    request.execution_id = -1;
    assert_eq!(
        prepare_publication(&request, vec![1]),
        Err(HarnessUsageError::new(HarnessUsageErrorKind::InvalidReport))
    );
}

#[test]
fn a_report_is_a_copy_of_its_snapshot() {
    let report = report();
    assert_eq!((report.execution_id, report.capture_sequence), (7, 3));
    match report.payload {
        NativePayload::Codex(payload) => {
            assert_eq!(payload.usage.unwrap().total_tokens, Some(14));
            assert_eq!(payload.attribution[0].model.as_deref(), Some("large"));
            assert_eq!(payload.tool_calls.unwrap().by_name, [("shell".to_owned(), 2)]);
        }
        other => panic!("{other:?}"),
    }
}

#[test]
fn answers_of_the_server_are_told_apart() {
    let kind = |status, problem| HarnessUsageError::from_response(status, None, problem).kind;
    let problem = |name: &str, retryable| {
        Some(HarnessUsageProblem { problem_type: HarnessUsageProblemType::named(name), retryable })
    };
    for status in [404, 405, 501] {
        assert_eq!(kind(status, None), HarnessUsageErrorKind::Disabled);
    }
    for name in [
        "https://docs.warp.dev/errors/feature_not_available",
        "https://docs.warp.dev/errors/operation_not_supported",
    ] {
        assert_eq!(kind(500, problem(name, None)), HarnessUsageErrorKind::Disabled);
    }
    for status in [401, 403] {
        assert_eq!(kind(status, None), HarnessUsageErrorKind::Unauthorized);
    }
    for status in [409, 412] {
        assert_eq!(kind(status, None), HarnessUsageErrorKind::Conflict);
    }
    for status in [408, 429, 500, 503, 599] {
        assert_eq!(kind(status, problem("other", Some(true))), HarnessUsageErrorKind::Retryable);
    }
    assert_eq!(kind(503, problem("other", Some(false))), HarnessUsageErrorKind::InvalidReport);
    assert_eq!(kind(429, problem("other", Some(false))), HarnessUsageErrorKind::Retryable);
    assert_eq!(kind(400, None), HarnessUsageErrorKind::InvalidReport);
    assert_eq!(kind(600, None), HarnessUsageErrorKind::InvalidReport);
}

#[test]
fn a_retry_is_due_after_seconds_or_at_a_date() {
    let now = (1_767_268_800, 0); // 2026-01-01 12:00:00 UTC
    let seconds = |seconds| Some(Span { seconds, nanoseconds: 0 });
    assert_eq!(parse_harness_usage_retry_after(" 120 ", now), seconds(120));
    assert_eq!(
        parse_harness_usage_retry_after("Thu, 01 Jan 2026 12:00:30 GMT", now),
        seconds(30)
    );
    assert_eq!(
        parse_harness_usage_retry_after("Thu, 01 Jan 2026 13:00:30 +0100", now),
        seconds(30)
    );
    assert_eq!(
        parse_harness_usage_retry_after("Thu, 01 Jan 2026 12:00:30 GMT", (1_767_268_800, 250)),
        Some(Span { seconds: 29, nanoseconds: 999_999_750 })
    );
    // A date that has passed is now.
    assert_eq!(
        parse_harness_usage_retry_after("Thu, 01 Jan 2026 11:00:00 GMT", now),
        seconds(0)
    );
    assert_eq!(parse_harness_usage_retry_after("soon", now), None);
    assert_eq!(parse_harness_usage_retry_after("-5", now), None);
    assert_eq!(choose_retry_after("5", now, Some((9, 9))), seconds(5));
    assert_eq!(choose_retry_after("x", now, None), None);
    assert_eq!(choose_retry_after("x", (5, 9), Some((7, 8))),
        Some(Span { seconds: 1, nanoseconds: 999_999_999 }));
    assert_eq!(time_until((7, 8), (5, 9)), Span { seconds: 0, nanoseconds: 0 });
}

fn publication(status: Status, id: i64, sequence: i64) -> AttemptOutcome {
    AttemptOutcome::Acknowledged(HarnessUsagePublication {
        status,
        execution_id: id,
        capture_sequence: sequence,
    })
}

#[test]
fn only_acknowledgements_of_the_capture_or_a_newer_one_count() {
    let finish = |attempt| finish_publication(&report(), attempt);
    for attempt in [
        publication(Status::Accepted, 7, 3),
        publication(Status::Idempotent, 7, 3),
        publication(Status::IgnoredOlderCapture, 7, 4),
        publication(Status::IgnoredOlderCapture, 8, 1),
    ] {
        assert!(finish(attempt).is_ok(), "{attempt:?}");
    }
    for attempt in [
        publication(Status::Accepted, 7, 4),
        publication(Status::Idempotent, 8, 3),
        publication(Status::IgnoredOlderCapture, 0, 4),
        publication(Status::IgnoredOlderCapture, 7, 0),
        AttemptOutcome::Unreadable,
    ] {
        assert_eq!(
            finish(attempt).unwrap_err().kind,
            HarnessUsageErrorKind::InvalidResponse
        );
    }
    for attempt in [AttemptOutcome::NotSent, AttemptOutcome::Interrupted] {
        assert_eq!(finish(attempt).unwrap_err().kind, HarnessUsageErrorKind::Retryable);
    }
    let refused = AttemptOutcome::Refused { status: 429, retry_after: None, problem: None };
    assert_eq!(finish(refused).unwrap_err().status, Some(429));
}

#[test]
fn reports_begin_once_and_end_for_good() {
    let context = Some(HarnessUsageContext { execution_id: 7 });
    let mut reporter = UsageReporter::new();
    assert!(reporter.begin_capture().is_none());
    reporter.initialize(Some("task".into()), context);
    assert!(reporter.is_enabled());
    assert_eq!(
        reporter.begin_capture(),
        Some(CaptureIdentity { execution_id: 7, sequence: 1 })
    );
    let identity = reporter.begin_capture().unwrap();
    assert_eq!(identity.sequence, 2);
    assert!(reporter.take_staged().is_none());
    let staged = identity.build_usage_report((5, 0), &ExtractionOutcome::Usable(snapshot()));
    reporter.stage_uploaded_report(staged);
    let (task, taken) = reporter.take_staged().unwrap();
    assert_eq!(task, "task");
    assert_eq!((taken.execution_id, taken.capture_sequence), (7, 2));
    assert!(reporter.take_staged().is_none());
    // A capture drops what was staged before it.
    reporter.stage_uploaded_report(Some(report()));
    reporter.begin_capture();
    assert!(reporter.take_staged().is_none());
    reporter.settle(Err(HarnessUsageError::new(HarnessUsageErrorKind::Retryable)));
    reporter.settle(Err(HarnessUsageError::new(HarnessUsageErrorKind::InvalidReport)));
    assert!(reporter.is_enabled());
    reporter.settle(Err(HarnessUsageError::new(HarnessUsageErrorKind::Conflict)));
    assert!(!reporter.is_enabled());
    reporter.initialize(Some("task".into()), context);
    assert!(!reporter.is_enabled());
    for (task, context) in [
        (None, context),
        (Some("task".to_owned()), None),
        (Some("task".to_owned()), Some(HarnessUsageContext { execution_id: 0 })),
    ] {
        let mut reporter = UsageReporter::new();
        reporter.initialize(task, context);
        assert!(!reporter.is_enabled());
    }
    let nothing = ExtractionOutcome::Unavailable(vec!["no log".into()]);
    assert!(identity.build_usage_report((5, 0), &nothing).is_none());
    assert_eq!(usable_context(context), context);
    assert_eq!(usable_context(Some(HarnessUsageContext { execution_id: -1 })), None);
}

#[test]
fn a_publication_is_tried_three_times_at_most() {
    let retryable = |retry_after| -> Result<HarnessUsagePublication, HarnessUsageError> {
        Err(HarnessUsageError {
            kind: HarnessUsageErrorKind::Retryable,
            status: None,
            retry_after,
        })
    };
    let second = Span::from_seconds(1);
    assert!(matches!(retry_step(1, retryable(None), second), RetryStep::Sleep(delay)
        if delay == second));
    let asked = Some(Span::from_seconds(10));
    assert!(matches!(retry_step(2, retryable(asked), second), RetryStep::Sleep(delay)
        if delay == Span::from_seconds(10)));
    let long = Some(Span { seconds: 10, nanoseconds: 1 });
    assert!(matches!(retry_step(1, retryable(long), second), RetryStep::Finish(Err(_))));
    assert!(matches!(retry_step(3, retryable(None), second), RetryStep::Finish(Err(_))));
    let conflict = Err(HarnessUsageError::new(HarnessUsageErrorKind::Conflict));
    assert!(matches!(retry_step(1, conflict, second), RetryStep::Finish(Err(_))));
    assert_eq!((publication_backoff(1), publication_backoff(2)), (1, 2));
}

#[test]
fn the_usage_of_an_uploaded_transcript_is_kept() {
    let saved = save_transcript_and_block(Ok(5), Ok(()));
    assert!(saved.result.is_ok());
    assert_eq!(saved.uploaded_usage, Some(5));
    let saved = save_transcript_and_block(Ok(5), Err("disk".into()));
    let error = saved.result.unwrap_err();
    assert_eq!(error.context, "Harness block snapshot save failed");
    assert_eq!(error.cause.as_deref(), Some("disk"));
    assert_eq!(saved.uploaded_usage, Some(5));
    let saved = save_transcript_and_block::<i32>(Err("net".into()), Ok(()));
    assert_eq!(saved.result.unwrap_err().context, "Harness transcript save failed");
    assert_eq!(saved.uploaded_usage, None);
    let saved = save_transcript_and_block::<i32>(Err("net".into()), Err("disk".into()));
    assert_eq!(
        saved.result.unwrap_err().context,
        "Harness transcript and block snapshot saves failed: transcript=net; block=disk"
    );
    let only: PersistenceOutcome<i32> = PersistenceOutcome::block_only(Err(SaveError {
        context: "x".into(),
        cause: None,
    }));
    assert!(only.result.is_err() && only.uploaded_usage.is_none());
}

#[test]
fn a_save_stages_the_report_of_its_upload() {
    let mut persistence = HarnessPersistence::new();
    assert!(!persistence.is_reporting_enabled());
    persistence.initialize(Some("task".into()), Some(HarnessUsageContext { execution_id: 7 }));
    assert!(persistence.is_reporting_enabled());
    let identity = persistence.begin_capture().unwrap();
    let uploaded = identity.build_usage_report((5, 0), &ExtractionOutcome::Usable(snapshot()));
    // The block failed; the transcript was uploaded all the same.
    let saved = save_transcript_and_block(Ok(uploaded), Err("disk".into()));
    assert!(persistence.complete(saved).is_err());
    // A save without a transcript leaves what was staged.
    let block = PersistenceOutcome::block_only(Ok(()));
    assert!(persistence.complete(block).is_ok());
    let (task, staged) = persistence.usage().take_staged().unwrap();
    assert_eq!(task, "task");
    assert_eq!(staged.capture_sequence, 1);
    let block: PersistenceOutcome<()> = PersistenceOutcome::block_only(Ok(()));
    assert!(block.into_result().is_ok());
}

#[test]
fn spans_are_those_of_the_calendar() {
    // A leap second: 2016-12-31 23:59:60.
    let leap = (1_483_228_799, 1_500_000_000);
    let day = |seconds: i64, nanoseconds: u32| {
        chrono::DateTime::<chrono::Utc>::from_timestamp(seconds, nanoseconds).unwrap()
    };
    let moments = [
        leap,
        (1_483_228_799, 999_999_999),
        (1_483_228_800, 0),
        (1_483_228_800, 700_000_000),
        (1_483_142_399, 1_999_999_999),
        (0, 0),
        (-1, 5),
        (-86_400, 1),
        (1_767_268_800, 250),
    ];
    for from in moments {
        for to in moments {
            let expected = (day(to.0, to.1) - day(from.0, from.1)).to_std().unwrap_or_default();
            let span = time_until(from, to);
            assert_eq!(
                (span.seconds, span.nanoseconds),
                (expected.as_secs(), expected.subsec_nanos()),
                "{from:?} {to:?}"
            );
        }
    }
}

#[test]
fn a_failure_tells_its_kind_and_its_status() {
    assert_eq!(
        HarnessUsageError::from_response(429, None, None).to_line(),
        "Harness usage publication failed: Retryable (HTTP Some(429))"
    );
    assert_eq!(
        HarnessUsageError::new(HarnessUsageErrorKind::InvalidReport).to_line(),
        "Harness usage publication failed: InvalidReport (HTTP None)"
    );
}
