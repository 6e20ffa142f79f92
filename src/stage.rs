use vstd::prelude::*;

verus! {

/// Where a run stands. A run only moves forward, and any failure ends it.
#[derive(Clone, Copy, Debug, PartialEq, Eq, Structural)]
pub enum Stage {
    Init,
    FetchedRaw,
    Transformed,
    Sorted,
    Serialized,
    RevisionRead,
    Pushed,
    Failed,
}

/// The position of a stage along the run.
pub open spec fn stage_rank(s: Stage) -> nat {
    match s {
        Stage::Init => 0,
        Stage::FetchedRaw => 1,
        Stage::Transformed => 2,
        Stage::Sorted => 3,
        Stage::Serialized => 4,
        Stage::RevisionRead => 5,
        Stage::Pushed => 6,
        Stage::Failed => 7,
    }
}

pub open spec fn is_terminal(s: Stage) -> bool {
    s == Stage::Pushed || s == Stage::Failed
}

/// The stage after the step taken at `s` succeeded or failed.
pub open spec fn stage_after(s: Stage, succeeded: bool) -> Stage {
    if is_terminal(s) {
        s
    } else if !succeeded {
        Stage::Failed
    } else {
        match s {
            Stage::Init => Stage::FetchedRaw,
            Stage::FetchedRaw => Stage::Transformed,
            Stage::Transformed => Stage::Sorted,
            Stage::Sorted => Stage::Serialized,
            Stage::Serialized => Stage::RevisionRead,
            _ => Stage::Pushed,
        }
    }
}

/// A run never comes back to a stage it has left: each step either ends
/// the run where it is or moves it strictly forward, and a failed run stays
/// failed, so a refused write is never tried again.
pub proof fn lemma_stages_only_move_forward(s: Stage, succeeded: bool)
    ensures
        is_terminal(s) ==> stage_after(s, succeeded) == s,
        !is_terminal(s) ==> stage_rank(stage_after(s, succeeded)) > stage_rank(s),
        stage_after(Stage::Failed, succeeded) == Stage::Failed,
{
}

impl Stage {
    /// Whether the run has ended, by success or failure.
    pub fn is_finished(&self) -> (r: bool)
        ensures
            r == is_terminal(*self),
    {
        matches!(self, Stage::Pushed | Stage::Failed)
    }

    /// The stage after the step taken at this one succeeded or failed. A
    /// finished run stays where it is; a failure ends the run; a success
    /// moves on by one stage.
    pub fn next(self, succeeded: bool) -> (r: Stage)
        ensures
            r == stage_after(self, succeeded),
            is_terminal(self) ==> r == self,
            !is_terminal(self) && !succeeded ==> r == Stage::Failed,
            !is_terminal(self) && succeeded ==> r != Stage::Failed && stage_rank(r) == stage_rank(
                self,
            ) + 1,
    {
        if !succeeded {
            return match self {
                Stage::Pushed => Stage::Pushed,
                _ => Stage::Failed,
            };
        }
        match self {
            Stage::Init => Stage::FetchedRaw,
            Stage::FetchedRaw => Stage::Transformed,
            Stage::Transformed => Stage::Sorted,
            Stage::Sorted => Stage::Serialized,
            Stage::Serialized => Stage::RevisionRead,
            Stage::RevisionRead => Stage::Pushed,
            Stage::Pushed => Stage::Pushed,
            Stage::Failed => Stage::Failed,
        }
    }
}

} // verus!
