//! The stages of a run: which stage follows on which event.

use vstd::prelude::*;
use crate::document::MetadataError;
use crate::report::ReportParseError;
use crate::target::ResolveError;

verus! {

/// Why a run failed.
#[derive(Debug, Clone, Copy, PartialEq, Eq, Structural)]
pub enum Failure {
    /// The metadata document was refused.
    Metadata,
    /// The manifest path does not exist or cannot be made canonical.
    ManifestPath,
    /// No target was selected and there are several.
    AmbiguousTarget,
    /// The selected target is not among the candidates.
    TargetNotFound,
    /// The build ended with a failure.
    BuildFailed,
    /// The analysis tool could not be started.
    AnalysisInvocation,
    /// The report of the analysis tool was refused.
    ReportParse,
}

impl Failure {
    /// The failure of a run whose metadata was refused.
    pub fn of_metadata(error: MetadataError) -> (failure: Failure)
        ensures
            failure == Failure::Metadata,
    {
        Failure::Metadata
    }

    /// The failure of a run in which no target could be picked.
    pub fn of_resolve(error: ResolveError) -> (failure: Failure)
        ensures
            failure == match error {
                ResolveError::AmbiguousTarget => Failure::AmbiguousTarget,
                ResolveError::TargetNotFound => Failure::TargetNotFound,
            },
    {
        match error {
            ResolveError::AmbiguousTarget => Failure::AmbiguousTarget,
            ResolveError::TargetNotFound => Failure::TargetNotFound,
        }
    }

    /// The failure of a run whose report was refused.
    pub fn of_report(error: ReportParseError) -> (failure: Failure)
        ensures
            failure == Failure::ReportParse,
    {
        Failure::ReportParse
    }
}

/// What is to be done at a stage.
#[derive(Debug, Clone, Copy, PartialEq, Eq, Structural)]
pub enum Action {
    /// Obtain the metadata document and read it.
    LoadMetadata,
    /// Pick the target to act on.
    ResolveTarget,
    /// Build the target.
    BuildTarget,
    /// Run the analysis tool on the target.
    Analyze,
    /// Read the report of the analysis tool.
    ReadReport,
    /// Leave with this exit code.
    Exit(u8),
}

/// The stage that a run has reached.
#[derive(Debug, Clone, Copy, PartialEq, Eq, Structural)]
pub enum Stage {
    /// Nothing has been done yet.
    Start,
    /// The metadata has been read.
    MetadataLoaded,
    /// The target to act on is known.
    TargetResolved,
    /// The target has been built.
    Built,
    /// The analysis tool has run on the target.
    Analyzed,
    /// The run ended and no leak was reported.
    Clean,
    /// The run ended and leaks were reported.
    HasLeaks,
    /// The run ended with a failure.
    Failed(Failure),
}

/// What the work of a stage came to.
#[derive(Debug, Clone, Copy, PartialEq, Eq, Structural)]
pub enum Event {
    /// The work of the stage is done.
    Done,
    /// The report was read and holds this many leaks.
    Report(usize),
    /// The work of the stage failed.
    Failed(Failure),
}

impl Stage {
    /// Whether the run has ended.
    pub open spec fn is_final(self) -> bool {
        self == Stage::Clean || self == Stage::HasLeaks || self is Failed
    }

    /// The stage that follows this one on `event`. A stage that has ended
    /// stays; a failure ends the run with its reason; the stages before the
    /// analysis follow one another; after the analysis the number of leaks
    /// decides. An event that a stage does not await leaves it unchanged.
    pub open spec fn next(self, event: Event) -> Stage {
        if self.is_final() {
            self
        } else {
            match (self, event) {
                (_, Event::Failed(failure)) => Stage::Failed(failure),
                (Stage::Start, Event::Done) => Stage::MetadataLoaded,
                (Stage::MetadataLoaded, Event::Done) => Stage::TargetResolved,
                (Stage::TargetResolved, Event::Done) => Stage::Built,
                (Stage::Built, Event::Done) => Stage::Analyzed,
                (Stage::Analyzed, Event::Report(leaks)) => if leaks == 0 {
                    Stage::Clean
                } else {
                    Stage::HasLeaks
                },
                _ => self,
            }
        }
    }

    /// The exit code of a run that ended at this stage: zero for a clean
    /// run, one otherwise.
    pub open spec fn code(self) -> u8 {
        if self == Stage::Clean {
            0
        } else {
            1
        }
    }

    /// What is to be done at this stage: the work that leads to the next
    /// stage, or leaving with the exit code where the run has ended.
    pub open spec fn due(self) -> Action {
        match self {
            Stage::Start => Action::LoadMetadata,
            Stage::MetadataLoaded => Action::ResolveTarget,
            Stage::TargetResolved => Action::BuildTarget,
            Stage::Built => Action::Analyze,
            Stage::Analyzed => Action::ReadReport,
            _ => Action::Exit(self.code()),
        }
    }

    /// Tells what is to be done at this stage.
    pub fn action(&self) -> (action: Action)
        ensures
            action == self.due(),
    {
        match self {
            Stage::Start => Action::LoadMetadata,
            Stage::MetadataLoaded => Action::ResolveTarget,
            Stage::TargetResolved => Action::BuildTarget,
            Stage::Built => Action::Analyze,
            Stage::Analyzed => Action::ReadReport,
            Stage::Clean => Action::Exit(0),
            _ => Action::Exit(1),
        }
    }

    /// Tells whether the run has ended.
    pub fn finished(&self) -> (yes: bool)
        ensures
            yes == self.is_final(),
    {
        match self {
            Stage::Clean | Stage::HasLeaks | Stage::Failed(_) => true,
            _ => false,
        }
    }
}

/// Gives the stage that follows `stage` on `event`.
pub fn advance(stage: Stage, event: Event) -> (next: Stage)
    ensures
        next == stage.next(event),
{
    if stage.finished() {
        return stage;
    }
    match event {
        Event::Failed(failure) => Stage::Failed(failure),
        Event::Done => match stage {
            Stage::Start => Stage::MetadataLoaded,
            Stage::MetadataLoaded => Stage::TargetResolved,
            Stage::TargetResolved => Stage::Built,
            Stage::Built => Stage::Analyzed,
            _ => stage,
        },
        Event::Report(leaks) => match stage {
            Stage::Analyzed => if leaks == 0 {
                Stage::Clean
            } else {
                Stage::HasLeaks
            },
            _ => stage,
        },
    }
}

/// Gives the exit code of a run that ended at `stage`.
pub fn exit_code(stage: Stage) -> (code: u8)
    requires
        stage.is_final(),
    ensures
        code == stage.code(),
{
    match stage {
        Stage::Clean => 0,
        _ => 1,
    }
}

/// A run that has ended stays where it is, whatever follows.
pub proof fn lemma_final_stage_stays(stage: Stage, event: Event)
    requires
        stage.is_final(),
    ensures
        stage.next(event) == stage,
{
}

/// A failure ends a run that has not ended, with the failure's reason, and
/// no later event changes that.
pub proof fn lemma_failure_ends_run(stage: Stage, failure: Failure, later: Event)
    requires
        !stage.is_final(),
    ensures
        stage.next(Event::Failed(failure)) == Stage::Failed(failure),
        stage.next(Event::Failed(failure)).next(later) == Stage::Failed(failure),
{
}

/// After the analysis a run ends with leaks exactly where the report holds
/// at least one, and clean otherwise.
pub proof fn lemma_report_decides(leaks: usize)
    ensures
        Stage::Analyzed.next(Event::Report(leaks)) == Stage::HasLeaks <==> leaks != 0,
        Stage::Analyzed.next(Event::Report(leaks)) == Stage::Clean <==> leaks == 0,
{
}

} // verus!
