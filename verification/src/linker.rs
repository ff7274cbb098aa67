//! The link-swap protocol: replace a redundant path with a hard link to
//! the original, with no window in which the redundant path is missing.
//!
//! The filesystem calls themselves are made by the embedding program; this
//! module decides, step by step, which call to make next. The sequence is:
//! announce the planned link, create a hard link at a staging path, clear
//! the redundant path's read-only bit if set, rename the staging path over
//! the redundant path (an atomic replace), and finally set the original
//! read-only unless that is suppressed or already so. On a rename failure
//! the staging link is deleted and the failure surfaces. In dry-run mode
//! no mutating step is ever issued.

use vstd::prelude::*;
use vstd::string::StringExecFns;
use crate::record::DedupError;

verus! {

/// The next filesystem call the embedding program should make. Calls that
/// name no path implicitly concern the paths held by the [`LinkSwap`]
/// that issued them.
#[derive(Clone, Copy, Debug, PartialEq, Eq, Structural)]
pub enum SwapAction {
    /// Print the planned link, with the dry-run glyph when dry.
    AnnounceLink,
    /// Create a hard link at the staging path pointing at the original.
    CreateHardLink,
    /// Read whether the redundant path is currently read-only.
    ReadRedundantReadonly,
    /// Clear the redundant path's read-only bit.
    ClearRedundantReadonly,
    /// Atomically rename the staging path over the redundant path.
    RenameStagingOverRedundant,
    /// Delete the staging link (rollback after a failed rename).
    RemoveStaging,
    /// Read whether the original path is currently read-only.
    ReadOriginalReadonly,
    /// Set the original path read-only.
    SetOriginalReadonly,
    /// Print that the original would be made read-only (dry run only).
    AnnounceReadonly,
}

/// What the embedding program reports back about the last action.
#[derive(Clone, Copy, Debug, PartialEq, Eq, Structural)]
pub enum SwapEvent {
    /// The action succeeded (for actions with no answer).
    Completed,
    /// A permission read succeeded; the payload is the read-only bit.
    CompletedReadonly(bool),
    /// The action failed.
    Failed,
}

/// What to do after an event: perform another action, stop successfully,
/// or surface a fatal link error.
#[derive(Clone, Copy, Debug, PartialEq, Eq, Structural)]
pub enum SwapStep {
    Act(SwapAction),
    Done,
    Fatal,
}

/// Where the protocol stands.
#[derive(Clone, Copy, Debug, PartialEq, Eq, Structural)]
pub enum SwapState {
    Announcing,
    Linking,
    CheckingRedundant,
    Clearing,
    Renaming,
    RollingBack,
    CheckingOriginal,
    SettingReadonly,
    AnnouncingReadonly,
    Finished,
    Failed,
}

/// Does an action mutate the filesystem?
pub open spec fn action_mutates(a: SwapAction) -> bool {
    match a {
        SwapAction::CreateHardLink => true,
        SwapAction::ClearRedundantReadonly => true,
        SwapAction::RenameStagingOverRedundant => true,
        SwapAction::RemoveStaging => true,
        SwapAction::SetOriginalReadonly => true,
        SwapAction::AnnounceLink => false,
        SwapAction::ReadRedundantReadonly => false,
        SwapAction::ReadOriginalReadonly => false,
        SwapAction::AnnounceReadonly => false,
    }
}

/// The transition function of the protocol. An event that does not fit
/// the state is treated as a failure.
pub open spec fn swap_transition(
    s: SwapState,
    dry_run: bool,
    not_readonly: bool,
    event: SwapEvent,
) -> (SwapState, SwapStep) {
    match (s, event) {
        (SwapState::Announcing, SwapEvent::Completed) => if dry_run {
            if not_readonly {
                (SwapState::Finished, SwapStep::Done)
            } else {
                (SwapState::CheckingOriginal, SwapStep::Act(SwapAction::ReadOriginalReadonly))
            }
        } else {
            (SwapState::Linking, SwapStep::Act(SwapAction::CreateHardLink))
        },
        (SwapState::Linking, SwapEvent::Completed) => (
            SwapState::CheckingRedundant,
            SwapStep::Act(SwapAction::ReadRedundantReadonly),
        ),
        (SwapState::CheckingRedundant, SwapEvent::CompletedReadonly(readonly)) => if readonly {
            (SwapState::Clearing, SwapStep::Act(SwapAction::ClearRedundantReadonly))
        } else {
            (SwapState::Renaming, SwapStep::Act(SwapAction::RenameStagingOverRedundant))
        },
        (SwapState::Clearing, SwapEvent::Completed) => (
            SwapState::Renaming,
            SwapStep::Act(SwapAction::RenameStagingOverRedundant),
        ),
        (SwapState::Renaming, SwapEvent::Completed) => if not_readonly {
            (SwapState::Finished, SwapStep::Done)
        } else {
            (SwapState::CheckingOriginal, SwapStep::Act(SwapAction::ReadOriginalReadonly))
        },
        // The rename failed: the staging link is deleted before the
        // failure surfaces, and the redundant path is left untouched.
        (SwapState::Renaming, SwapEvent::Failed) => (
            SwapState::RollingBack,
            SwapStep::Act(SwapAction::RemoveStaging),
        ),
        (SwapState::RollingBack, _) => (SwapState::Failed, SwapStep::Fatal),
        (SwapState::CheckingOriginal, SwapEvent::CompletedReadonly(readonly)) => if readonly {
            (SwapState::Finished, SwapStep::Done)
        } else if dry_run {
            (SwapState::AnnouncingReadonly, SwapStep::Act(SwapAction::AnnounceReadonly))
        } else {
            (SwapState::SettingReadonly, SwapStep::Act(SwapAction::SetOriginalReadonly))
        },
        (SwapState::SettingReadonly, SwapEvent::Completed) => (
            SwapState::Finished,
            SwapStep::Done,
        ),
        (SwapState::AnnouncingReadonly, SwapEvent::Completed) => (
            SwapState::Finished,
            SwapStep::Done,
        ),
        (SwapState::Finished, _) => (SwapState::Finished, SwapStep::Done),
        _ => (SwapState::Failed, SwapStep::Fatal),
    }
}

/// Form the staging path: the redundant path with a dot and the
/// configured suffix appended.
pub fn staging_path(redundant: &str, temporary_extension: &str) -> (r: String)
    ensures
        r@ == redundant@ + "."@ + temporary_extension@,
{
    let mut staged = redundant.to_owned();
    staged.append(".");
    staged.append(temporary_extension);
    staged
}

/// One planned link-swap being carried out.
pub struct LinkSwap {
    pub original: String,
    pub redundant: String,
    pub staging: String,
    pub dry_run: bool,
    pub not_readonly: bool,
    pub state: SwapState,
}

impl LinkSwap {
    pub open spec fn state_spec(&self) -> SwapState {
        self.state
    }

    /// The staging path is always the redundant path extended by the
    /// suffix — in particular it is a different path, so deleting it
    /// during rollback can never delete the redundant path.
    pub open spec fn wf(&self) -> bool {
        self.staging@.len() > self.redundant@.len()
    }

    /// Plan the swap. The first action is always the announcement.
    pub fn begin(
        original: String,
        redundant: String,
        temporary_extension: &str,
        dry_run: bool,
        not_readonly: bool,
    ) -> (r: (Self, SwapAction))
        ensures
            r.0.wf(),
            r.0.state_spec() == SwapState::Announcing,
            r.0.original@ == original@,
            r.0.redundant@ == redundant@,
            r.0.staging@ == redundant@ + "."@ + temporary_extension@,
            r.0.dry_run == dry_run,
            r.0.not_readonly == not_readonly,
            r.1 == SwapAction::AnnounceLink,
    {
        let staging = staging_path(redundant.as_str(), temporary_extension);
        proof {
            reveal_strlit(".");
        }
        let swap = LinkSwap {
            original,
            redundant,
            staging,
            dry_run,
            not_readonly,
            state: SwapState::Announcing,
        };
        (swap, SwapAction::AnnounceLink)
    }

    /// Feed back the outcome of the last action and learn what to do
    /// next.
    pub fn proceed(&mut self, event: SwapEvent) -> (r: SwapStep)
        ensures
            final(self).original == old(self).original,
            final(self).redundant == old(self).redundant,
            final(self).staging == old(self).staging,
            final(self).dry_run == old(self).dry_run,
            final(self).not_readonly == old(self).not_readonly,
            final(self).wf() == old(self).wf(),
            (final(self).state_spec(), r) == swap_transition(
                old(self).state_spec(),
                old(self).dry_run,
                old(self).not_readonly,
                event,
            ),
    {
        let (next, step) = match (self.state, event) {
            (SwapState::Announcing, SwapEvent::Completed) => if self.dry_run {
                if self.not_readonly {
                    (SwapState::Finished, SwapStep::Done)
                } else {
                    (SwapState::CheckingOriginal, SwapStep::Act(SwapAction::ReadOriginalReadonly))
                }
            } else {
                (SwapState::Linking, SwapStep::Act(SwapAction::CreateHardLink))
            },
            (SwapState::Linking, SwapEvent::Completed) => (
                SwapState::CheckingRedundant,
                SwapStep::Act(SwapAction::ReadRedundantReadonly),
            ),
            (SwapState::CheckingRedundant, SwapEvent::CompletedReadonly(readonly)) => if readonly {
                (SwapState::Clearing, SwapStep::Act(SwapAction::ClearRedundantReadonly))
            } else {
                (SwapState::Renaming, SwapStep::Act(SwapAction::RenameStagingOverRedundant))
            },
            (SwapState::Clearing, SwapEvent::Completed) => (
                SwapState::Renaming,
                SwapStep::Act(SwapAction::RenameStagingOverRedundant),
            ),
            (SwapState::Renaming, SwapEvent::Completed) => if self.not_readonly {
                (SwapState::Finished, SwapStep::Done)
            } else {
                (SwapState::CheckingOriginal, SwapStep::Act(SwapAction::ReadOriginalReadonly))
            },
            (SwapState::Renaming, SwapEvent::Failed) => (
                SwapState::RollingBack,
                SwapStep::Act(SwapAction::RemoveStaging),
            ),
            (SwapState::RollingBack, _) => (SwapState::Failed, SwapStep::Fatal),
            (SwapState::CheckingOriginal, SwapEvent::CompletedReadonly(readonly)) => if readonly {
                (SwapState::Finished, SwapStep::Done)
            } else if self.dry_run {
                (SwapState::AnnouncingReadonly, SwapStep::Act(SwapAction::AnnounceReadonly))
            } else {
                (SwapState::SettingReadonly, SwapStep::Act(SwapAction::SetOriginalReadonly))
            },
            (SwapState::SettingReadonly, SwapEvent::Completed) => (
                SwapState::Finished,
                SwapStep::Done,
            ),
            (SwapState::AnnouncingReadonly, SwapEvent::Completed) => (
                SwapState::Finished,
                SwapStep::Done,
            ),
            (SwapState::Finished, _) => (SwapState::Finished, SwapStep::Done),
            _ => (SwapState::Failed, SwapStep::Fatal),
        };
        self.state = next;
        step
    }
}

impl LinkSwap {
    /// The error to surface when the protocol ends fatally: a link-io
    /// failure on the redundant path. Always fatal to the run.
    pub fn failure(&self) -> (r: DedupError)
        ensures
            r matches DedupError::LinkIo { path } && path@ == self.redundant@,
    {
        DedupError::LinkIo { path: self.redundant.clone() }
    }
}

/// The states a dry run can ever be in: only the announcements, the
/// permission read on the original, and the terminal states.
pub open spec fn dry_reachable(s: SwapState) -> bool {
    match s {
        SwapState::Announcing => true,
        SwapState::CheckingOriginal => true,
        SwapState::AnnouncingReadonly => true,
        SwapState::Finished => true,
        SwapState::Failed => true,
        _ => false,
    }
}

/// A dry run mutates nothing: from any state a dry run can reach, every
/// action the protocol issues is non-mutating, and the protocol stays
/// within such states. Since a swap begins at the announcement, a dry run
/// never issues a mutating action.
pub proof fn lemma_dry_run_mutates_nothing(
    s: SwapState,
    not_readonly: bool,
    event: SwapEvent,
)
    requires
        dry_reachable(s),
    ensures
        dry_reachable(swap_transition(s, true, not_readonly, event).0),
        swap_transition(s, true, not_readonly, event).1 matches SwapStep::Act(a)
            ==> !action_mutates(a),
{
}

/// The only action that deletes anything is the rollback deletion of the
/// staging link, and it is issued only when the atomic rename itself
/// failed — at which point the redundant path still holds its original
/// content, and the staging path is distinct from both the redundant path
/// and from any path of different length. At every other step the
/// redundant path is only replaced atomically, never removed: no
/// intermediate state leaves it absent.
pub proof fn lemma_removal_only_on_rename_failure(
    s: SwapState,
    dry_run: bool,
    not_readonly: bool,
    event: SwapEvent,
)
    ensures
        swap_transition(s, dry_run, not_readonly, event).1 == SwapStep::Act(
            SwapAction::RemoveStaging,
        ) ==> (s == SwapState::Renaming && event == SwapEvent::Failed),
        swap_transition(s, dry_run, not_readonly, event).1 == SwapStep::Act(
            SwapAction::RenameStagingOverRedundant,
        ) ==> (s == SwapState::CheckingRedundant || s == SwapState::Clearing),
{
}

} // verus!
