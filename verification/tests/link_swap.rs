use dedup::linker::{staging_path, LinkSwap, SwapAction, SwapEvent, SwapStep};
use dedup::record::DedupError;

fn begin(dry_run: bool, not_readonly: bool) -> (LinkSwap, SwapAction) {
    LinkSwap::begin(
        String::from("t/a"),
        String::from("t/b"),
        "hard_link",
        dry_run,
        not_readonly,
    )
}

#[test]
fn staging_path_appends_the_suffix() {
    assert_eq!(staging_path("t/b", "hard_link"), "t/b.hard_link");
    assert_eq!(staging_path("t/b", "tmp"), "t/b.tmp");
}

#[test]
fn real_run_replaces_and_protects() {
    // The redundant file is read-write, the original already read-only:
    // link, rename, and leave the original's permissions alone.
    let (mut swap, first) = begin(false, false);
    assert_eq!(first, SwapAction::AnnounceLink);
    assert_eq!(swap.staging, "t/b.hard_link");
    assert_eq!(
        swap.proceed(SwapEvent::Completed),
        SwapStep::Act(SwapAction::CreateHardLink)
    );
    assert_eq!(
        swap.proceed(SwapEvent::Completed),
        SwapStep::Act(SwapAction::ReadRedundantReadonly)
    );
    assert_eq!(
        swap.proceed(SwapEvent::CompletedReadonly(false)),
        SwapStep::Act(SwapAction::RenameStagingOverRedundant)
    );
    assert_eq!(
        swap.proceed(SwapEvent::Completed),
        SwapStep::Act(SwapAction::ReadOriginalReadonly)
    );
    assert_eq!(swap.proceed(SwapEvent::CompletedReadonly(true)), SwapStep::Done);
}

#[test]
fn read_only_redundant_is_cleared_first() {
    let (mut swap, _) = begin(false, false);
    swap.proceed(SwapEvent::Completed);
    swap.proceed(SwapEvent::Completed);
    // The redundant path is read-only: clear the bit so the atomic
    // rename cannot be rejected.
    assert_eq!(
        swap.proceed(SwapEvent::CompletedReadonly(true)),
        SwapStep::Act(SwapAction::ClearRedundantReadonly)
    );
    assert_eq!(
        swap.proceed(SwapEvent::Completed),
        SwapStep::Act(SwapAction::RenameStagingOverRedundant)
    );
    assert_eq!(
        swap.proceed(SwapEvent::Completed),
        SwapStep::Act(SwapAction::ReadOriginalReadonly)
    );
    // The original was writable: it is set read-only after the swap.
    assert_eq!(
        swap.proceed(SwapEvent::CompletedReadonly(false)),
        SwapStep::Act(SwapAction::SetOriginalReadonly)
    );
    assert_eq!(swap.proceed(SwapEvent::Completed), SwapStep::Done);
}

#[test]
fn rename_failure_rolls_back_the_staging_link() {
    let (mut swap, _) = begin(false, true);
    swap.proceed(SwapEvent::Completed);
    swap.proceed(SwapEvent::Completed);
    swap.proceed(SwapEvent::CompletedReadonly(false));
    // The rename failed: delete the staging link, then surface the
    // failure. The redundant path was never touched.
    assert_eq!(
        swap.proceed(SwapEvent::Failed),
        SwapStep::Act(SwapAction::RemoveStaging)
    );
    assert_eq!(swap.proceed(SwapEvent::Completed), SwapStep::Fatal);
}

#[test]
fn hard_link_failure_is_fatal() {
    let (mut swap, _) = begin(false, false);
    swap.proceed(SwapEvent::Completed);
    assert_eq!(swap.proceed(SwapEvent::Failed), SwapStep::Fatal);
    match swap.failure() {
        DedupError::LinkIo { path } => assert_eq!(path, "t/b"),
        other => panic!("expected a link-io failure, got {other:?}"),
    }
}

fn mutates(action: SwapAction) -> bool {
    matches!(
        action,
        SwapAction::CreateHardLink
            | SwapAction::ClearRedundantReadonly
            | SwapAction::RenameStagingOverRedundant
            | SwapAction::RemoveStaging
            | SwapAction::SetOriginalReadonly
    )
}

#[test]
fn dry_run_only_announces() {
    // Dry run against a writable original: the planned link is printed,
    // then the would-be permission change, and nothing is mutated.
    let (mut swap, first) = begin(true, false);
    assert!(!mutates(first));
    let step = swap.proceed(SwapEvent::Completed);
    assert_eq!(step, SwapStep::Act(SwapAction::ReadOriginalReadonly));
    let step = swap.proceed(SwapEvent::CompletedReadonly(false));
    assert_eq!(step, SwapStep::Act(SwapAction::AnnounceReadonly));
    assert_eq!(swap.proceed(SwapEvent::Completed), SwapStep::Done);
}

#[test]
fn dry_run_with_readonly_original_ends_quietly() {
    let (mut swap, _) = begin(true, false);
    swap.proceed(SwapEvent::Completed);
    assert_eq!(swap.proceed(SwapEvent::CompletedReadonly(true)), SwapStep::Done);
}

#[test]
fn dry_run_without_permission_repair_is_done_at_once() {
    let (mut swap, _) = begin(true, true);
    assert_eq!(swap.proceed(SwapEvent::Completed), SwapStep::Done);
}
