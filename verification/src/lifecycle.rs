//! The native resource lifecycle of a two-stage platform backend.
//!
//! One platform style acquires a mapping in two steps: first a sized
//! file-mapping object, then a view of that object. Either step can fail,
//! and a failure of the second step must release the object the first step
//! acquired before the error is surfaced, or the handle leaks. The decisions
//! live here; the platform binding performs the native calls and hands their
//! reports in.

use vstd::prelude::*;

verus! {

/// How a two-stage acquisition ends.
#[derive(Clone, Copy, Debug)]
pub enum TwoStageOutcome {
    /// Both steps succeeded: the finished mapping owns the file-mapping
    /// object and the view.
    Mapped { map_obj: u64, view: u64 },
    /// The acquisition failed with the platform's `code`; `release` holds
    /// the first-stage handle that must be handed back, if one was acquired.
    Failed { release: Option<u64>, code: i32 },
}

/// The outcome the two step reports decide: an early failure has nothing to
/// release, a late failure releases the first-stage handle, and a double
/// success owns both handles.
pub open spec fn two_stage_outcome(first: Result<u64, i32>, second: Result<u64, i32>)
    -> TwoStageOutcome {
    match first {
        Err(code) => TwoStageOutcome::Failed { release: None, code },
        Ok(map_obj) => match second {
            Err(code) => TwoStageOutcome::Failed { release: Some(map_obj), code },
            Ok(view) => TwoStageOutcome::Mapped { map_obj, view },
        },
    }
}

/// The handles the platform handed out, in order: the second step only runs
/// after the first succeeds, so its report counts only then.
pub open spec fn acquired_handles(first: Result<u64, i32>, second: Result<u64, i32>) -> Seq<u64> {
    match first {
        Err(_) => seq![],
        Ok(h1) => match second {
            Err(_) => seq![h1],
            Ok(h2) => seq![h1, h2],
        },
    }
}

/// The handles an outcome keeps: those a finished mapping owns.
pub open spec fn retained_handles(outcome: TwoStageOutcome) -> Seq<u64> {
    match outcome {
        TwoStageOutcome::Mapped { map_obj, view } => seq![map_obj, view],
        TwoStageOutcome::Failed { release: _, code: _ } => seq![],
    }
}

/// The handles an outcome orders released before the constructor returns.
pub open spec fn released_handles(outcome: TwoStageOutcome) -> Seq<u64> {
    match outcome {
        TwoStageOutcome::Mapped { map_obj: _, view: _ } => seq![],
        TwoStageOutcome::Failed { release: Some(h), code: _ } => seq![h],
        TwoStageOutcome::Failed { release: None, code: _ } => seq![],
    }
}

/// Decides a two-stage acquisition from the platform's two step reports.
/// A failing first step aborts with nothing to release; a failing second
/// step orders the first-stage handle released before the error returns; a
/// double success completes the mapping.
pub fn two_stage_acquire(first: Result<u64, i32>, second: Result<u64, i32>) -> (r: TwoStageOutcome)
    ensures
        r == two_stage_outcome(first, second),
{
    match first {
        Err(code) => TwoStageOutcome::Failed { release: None, code },
        Ok(map_obj) => match second {
            Err(code) => TwoStageOutcome::Failed { release: Some(map_obj), code },
            Ok(view) => TwoStageOutcome::Mapped { map_obj, view },
        },
    }
}

/// The order a mapped two-stage resource releases its handles in on
/// teardown: the view is unmapped first, then the mapping object is closed,
/// always, whichever protection the mapping was acquired with.
pub fn two_stage_release(map_obj: u64, view: u64) -> (r: (u64, u64))
    ensures
        r == (view, map_obj),
{
    (view, map_obj)
}

/// Law: a two-stage acquisition accounts for every handle the platform
/// handed out exactly once — each is either owned by the finished mapping or
/// released before the error returns, so nothing leaks and nothing is
/// released twice, even when the second stage fails after the first
/// succeeded.
pub proof fn lemma_two_stage_no_leak(first: Result<u64, i32>, second: Result<u64, i32>)
    ensures
        acquired_handles(first, second) == retained_handles(two_stage_outcome(first, second))
            + released_handles(two_stage_outcome(first, second)),
{
    let o = two_stage_outcome(first, second);
    assert(acquired_handles(first, second) =~= retained_handles(o) + released_handles(o));
}

} // verus!
