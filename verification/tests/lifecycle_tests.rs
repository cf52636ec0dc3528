use filemap::two_stage_acquire;
use filemap::two_stage_release;
use filemap::TwoStageOutcome;

#[test]
fn first_stage_failure_releases_nothing() {
    let outcome = two_stage_acquire(Err(5), Err(0));
    assert!(matches!(outcome, TwoStageOutcome::Failed { release: None, code: 5 }));
}

#[test]
fn second_stage_failure_releases_first_handle() {
    // the first stage succeeded, so its handle must be handed back before
    // the error is surfaced: no leak
    let outcome = two_stage_acquire(Ok(7), Err(9));
    assert!(matches!(outcome, TwoStageOutcome::Failed { release: Some(7), code: 9 }));
}

#[test]
fn double_success_owns_both_handles() {
    let outcome = two_stage_acquire(Ok(7), Ok(8));
    assert!(matches!(outcome, TwoStageOutcome::Mapped { map_obj: 7, view: 8 }));
}

#[test]
fn release_unmaps_view_before_closing_object() {
    assert_eq!(two_stage_release(7, 8), (8, 7));
}
