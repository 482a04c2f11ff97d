//! What a harness has to save: its transcript and its block, each on its own.

use crate::harness_usage::{HarnessUsageContext, HarnessUsageReport};
use crate::usage_reporting::{
    captured, initialized, CaptureIdentity, LifecycleView, ReporterView, UsageReporter,
};
use vstd::prelude::*;
use vstd::string::*;

verus! {

/// Why a save failed: what was being done, and what went wrong.
#[derive(Debug)]
pub struct SaveError {
    pub context: String,
    pub cause: Option<String>,
}

#[verifier::ext_equal]
pub struct SaveErrorView {
    pub context: Seq<char>,
    pub cause: Option<Seq<char>>,
}

impl DeepView for SaveError {
    type V = SaveErrorView;

    open spec fn deep_view(&self) -> SaveErrorView {
        SaveErrorView { context: self.context@, cause: self.cause.deep_view() }
    }
}

/// The result of a save. The usage of a transcript that was uploaded is kept even
/// where the block could not be saved.
#[derive(Debug)]
pub struct PersistenceOutcome<U> {
    pub result: Result<(), SaveError>,
    pub uploaded_usage: Option<U>,
}

impl<U> PersistenceOutcome<U> {
    /// The result of a save without a transcript.
    pub fn block_only(result: Result<(), SaveError>) -> (saved: Self)
        ensures
            saved.result == result,
            saved.uploaded_usage is None,
    {
        PersistenceOutcome { result, uploaded_usage: None }
    }

    pub fn into_result(self) -> (result: Result<(), SaveError>)
        ensures
            result == self.result,
    {
        self.result
    }
}

/// What went wrong with the saves of a transcript and a block, if anything.
pub open spec fn save_failure(transcript: Option<Seq<char>>, block: Option<Seq<char>>) -> Option<
    SaveErrorView,
> {
    match (transcript, block) {
        (None, None) => None,
        (None, Some(error)) => Some(
            SaveErrorView {
                context: "Harness block snapshot save failed"@,
                cause: Some(error),
            },
        ),
        (Some(error), None) => Some(
            SaveErrorView { context: "Harness transcript save failed"@, cause: Some(error) },
        ),
        (Some(transcript), Some(block)) => Some(
            SaveErrorView {
                context: "Harness transcript and block snapshot saves failed: transcript="@
                    + transcript + "; block="@ + block,
                cause: None,
            },
        ),
    }
}

/// Puts the results of the saves of a transcript and a block together.
pub fn save_transcript_and_block<U>(
    transcript: Result<U, String>,
    block: Result<(), String>,
) -> (saved: PersistenceOutcome<U>)
    ensures
        match transcript {
            Ok(usage) => saved.uploaded_usage == Some(usage),
            Err(_) => saved.uploaded_usage is None,
        },
        match save_failure(
            match transcript {
                Ok(_) => None,
                Err(error) => Some(error@),
            },
            match block {
                Ok(_) => None,
                Err(error) => Some(error@),
            },
        ) {
            None => saved.result is Ok,
            Some(failure) => saved.result matches Err(error) && error.deep_view() == failure,
        },
{
    match (transcript, block) {
        (Ok(usage), Ok(())) => PersistenceOutcome { result: Ok(()), uploaded_usage: Some(usage) },
        (Ok(usage), Err(error)) => PersistenceOutcome {
            result: Err(
                SaveError {
                    context: "Harness block snapshot save failed".to_owned(),
                    cause: Some(error),
                },
            ),
            uploaded_usage: Some(usage),
        },
        (Err(error), Ok(())) => PersistenceOutcome {
            result: Err(
                SaveError {
                    context: "Harness transcript save failed".to_owned(),
                    cause: Some(error),
                },
            ),
            uploaded_usage: None,
        },
        (Err(transcript), Err(block)) => {
            let mut context =
                "Harness transcript and block snapshot saves failed: transcript=".to_owned();
            context.append(transcript.as_str());
            context.append("; block=");
            context.append(block.as_str());
            PersistenceOutcome {
                result: Err(SaveError { context, cause: None }),
                uploaded_usage: None,
            }
        },
    }
}

/// What a harness keeps across its saves.
#[derive(Debug)]
pub struct HarnessPersistence {
    usage: UsageReporter,
}

/// The model is that of the reports.
impl DeepView for HarnessPersistence {
    type V = ReporterView;

    closed spec fn deep_view(&self) -> ReporterView {
        self.usage.deep_view()
    }
}

impl HarnessPersistence {
    pub fn new() -> (persistence: HarnessPersistence)
        ensures
            persistence.deep_view() == (ReporterView {
                lifecycle: LifecycleView::Uninitialized,
                sequence: 0,
                pending: None,
            }),
    {
        HarnessPersistence { usage: UsageReporter::new() }
    }

    /// Begins the reports of an execution, if its startup allows for them.
    pub fn initialize(&mut self, task_id: Option<String>, context: Option<HarnessUsageContext>)
        ensures
            final(self).deep_view() == initialized(
                old(self).deep_view(),
                task_id.deep_view(),
                context,
            ),
    {
        self.usage.initialize(task_id, context);
    }

    pub fn is_reporting_enabled(&self) -> (r: bool)
        ensures
            r == (self.deep_view().lifecycle is Active),
    {
        self.usage.is_enabled()
    }

    pub fn begin_capture(&mut self) -> (r: Option<CaptureIdentity>)
        ensures
            (final(self).deep_view(), r) == captured(old(self).deep_view()),
    {
        self.usage.begin_capture()
    }

    /// Completes a save: the report of a transcript that was uploaded is staged, also
    /// where the save as a whole failed.
    pub fn complete(&mut self, saved: PersistenceOutcome<Option<HarnessUsageReport>>) -> (result:
        Result<(), SaveError>)
        ensures
            result == saved.result,
            final(self).deep_view() == (match saved.uploaded_usage {
                Some(report) => ReporterView {
                    pending: report.deep_view(),
                    ..old(self).deep_view()
                },
                None => old(self).deep_view(),
            }),
    {
        if let Some(report) = saved.uploaded_usage {
            self.usage.stage_uploaded_report(report);
        }
        saved.result
    }

    /// The reports, for their publication.
    pub fn usage(&mut self) -> (usage: &mut UsageReporter)
        ensures
            usage.deep_view() == old(self).deep_view(),
            final(self).deep_view() == final(usage).deep_view(),
    {
        &mut self.usage
    }
}

} // verus!
