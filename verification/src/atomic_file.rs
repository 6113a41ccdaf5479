//! Replacing a file as a whole: write a temporary file, make it durable, then
//! put it in the target's place.
//!
//! A reader that cannot lock the target sees either the previous file or the
//! complete new one.

use vstd::prelude::*;

verus! {

/// The next thing to do.
#[derive(Debug, Clone, Copy, PartialEq, Eq, Structural)]
pub enum FileAction {
    /// Create the target's directory and those above it.
    CreateDirectory,
    /// Create the temporary file, empty.
    CreateTemp,
    /// Write the contents to the temporary file.
    WriteTemp,
    /// Flush the temporary file to disk.
    SyncTemp,
    /// Replace the existing target by the temporary file in one operation.
    ReplaceTarget,
    /// Rename the temporary file to the target.
    RenameTemp,
    /// Remove the temporary file after a failed rename.
    RemoveTemp,
    /// The target holds the new contents.
    Done,
    /// The target was left alone.
    Failed,
}

/// What a particular file needs.
#[derive(Debug, Clone, Copy, PartialEq, Eq, Structural)]
pub struct WritePolicy {
    /// Create the directory first.
    pub make_directory: bool,
    /// Try to replace an existing target before renaming onto it.
    pub replace_first: bool,
    /// Remove the temporary file when it cannot be put in place.
    pub remove_temp: bool,
}

/// One replacement in progress.
#[derive(Debug, Clone, Copy, PartialEq, Eq, Structural)]
pub struct AtomicWrite {
    pub policy: WritePolicy,
    pub action: FileAction,
}

/// The action after `action` succeeded or failed.
pub open spec fn next_action(policy: WritePolicy, action: FileAction, ok: bool) -> FileAction {
    match action {
        FileAction::CreateDirectory => if ok {
            FileAction::CreateTemp
        } else {
            FileAction::Failed
        },
        FileAction::CreateTemp => if ok {
            FileAction::WriteTemp
        } else {
            FileAction::Failed
        },
        FileAction::WriteTemp => if ok {
            FileAction::SyncTemp
        } else {
            FileAction::Failed
        },
        FileAction::SyncTemp => if !ok {
            FileAction::Failed
        } else if policy.replace_first {
            FileAction::ReplaceTarget
        } else {
            FileAction::RenameTemp
        },
        FileAction::ReplaceTarget => if ok {
            FileAction::Done
        } else {
            FileAction::RenameTemp
        },
        FileAction::RenameTemp => if ok {
            FileAction::Done
        } else if policy.remove_temp {
            FileAction::RemoveTemp
        } else {
            FileAction::Failed
        },
        FileAction::RemoveTemp => FileAction::Failed,
        FileAction::Done => FileAction::Done,
        FileAction::Failed => FileAction::Failed,
    }
}

/// The first action.
pub open spec fn first_action(policy: WritePolicy) -> FileAction {
    if policy.make_directory {
        FileAction::CreateDirectory
    } else {
        FileAction::CreateTemp
    }
}

impl AtomicWrite {
    /// A replacement at its first action.
    pub fn start(policy: WritePolicy) -> (write: AtomicWrite)
        ensures
            write == (AtomicWrite { policy, action: first_action(policy) }),
    {
        let action = if policy.make_directory {
            FileAction::CreateDirectory
        } else {
            FileAction::CreateTemp
        };
        AtomicWrite { policy, action }
    }

    /// Move on after the current action succeeded or failed. Returns what to do
    /// next.
    pub fn advance(&mut self, ok: bool) -> (action: FileAction)
        ensures
            final(self).policy == old(self).policy,
            final(self).action == next_action(old(self).policy, old(self).action, ok),
            action == final(self).action,
    {
        self.action = match self.action {
            FileAction::CreateDirectory if ok => FileAction::CreateTemp,
            FileAction::CreateTemp if ok => FileAction::WriteTemp,
            FileAction::WriteTemp if ok => FileAction::SyncTemp,
            FileAction::SyncTemp if ok => {
                if self.policy.replace_first {
                    FileAction::ReplaceTarget
                } else {
                    FileAction::RenameTemp
                }
            },
            FileAction::ReplaceTarget => {
                if ok {
                    FileAction::Done
                } else {
                    FileAction::RenameTemp
                }
            },
            FileAction::RenameTemp => {
                if ok {
                    FileAction::Done
                } else if self.policy.remove_temp {
                    FileAction::RemoveTemp
                } else {
                    FileAction::Failed
                }
            },
            FileAction::Done => FileAction::Done,
            _ => FileAction::Failed,
        };
        self.action
    }
}

/// The actions that a sequence of outcomes leads through, the first one
/// included.
pub open spec fn actions_taken(policy: WritePolicy, outcomes: Seq<bool>) -> Seq<FileAction>
    decreases outcomes.len(),
{
    if outcomes.len() == 0 {
        seq![first_action(policy)]
    } else {
        let before = actions_taken(policy, outcomes.drop_last());
        before.push(next_action(policy, before.last(), outcomes.last()))
    }
}

/// Whether an action touches the target.
pub open spec fn touches_target(action: FileAction) -> bool {
    action == FileAction::ReplaceTarget || action == FileAction::RenameTemp
}

/// Whether the contents were written by outcome `i - 1` and flushed by outcome
/// `i`.
pub open spec fn flushed_at(actions: Seq<FileAction>, outcomes: Seq<bool>, i: int) -> bool {
    &&& 0 < i < outcomes.len()
    &&& actions[i - 1] == FileAction::WriteTemp
    &&& outcomes[i - 1]
    &&& actions[i] == FileAction::SyncTemp
    &&& outcomes[i]
}

/// Whether an action comes after the contents are complete.
pub open spec fn comes_after_flush(action: FileAction) -> bool {
    touches_target(action) || action == FileAction::Done || action == FileAction::RemoveTemp
}

proof fn lemma_flush_comes_first(policy: WritePolicy, outcomes: Seq<bool>)
    ensures
        actions_taken(policy, outcomes).len() == outcomes.len() + 1,
        actions_taken(policy, outcomes).last() == FileAction::SyncTemp ==> outcomes.len() > 0
            && actions_taken(policy, outcomes)[outcomes.len() - 1] == FileAction::WriteTemp
            && outcomes.last(),
        comes_after_flush(actions_taken(policy, outcomes).last()) ==> exists|i: int|
            flushed_at(actions_taken(policy, outcomes), outcomes, i),
    decreases outcomes.len(),
{
    if outcomes.len() > 0 {
        let rest = outcomes.drop_last();
        let before = actions_taken(policy, rest);
        let actions = actions_taken(policy, outcomes);
        let n = outcomes.len() as int;
        lemma_flush_comes_first(policy, rest);
        assert(before.len() == n);
        assert(actions == before.push(next_action(policy, before.last(), outcomes.last())));
        if comes_after_flush(actions.last()) {
            if before.last() == FileAction::SyncTemp {
                assert(actions[n - 1] == before.last());
                assert(actions[n - 2] == before[n - 2]);
                assert(flushed_at(actions, outcomes, n - 1));
            } else {
                assert(comes_after_flush(before.last()));
                let i = choose|i: int| flushed_at(before, rest, i);
                assert(flushed_at(actions, outcomes, i));
            }
        }
    }
}

/// The target is only ever touched once the complete contents have been written
/// to the temporary file and flushed: an earlier write and flush succeeded.
pub proof fn target_is_touched_only_by_complete_contents(policy: WritePolicy, outcomes: Seq<bool>)
    requires
        touches_target(actions_taken(policy, outcomes).last()),
    ensures
        exists|i: int| flushed_at(actions_taken(policy, outcomes), outcomes, i),
{
    lemma_flush_comes_first(policy, outcomes);
}

/// Every replacement ends within seven outcomes, and once ended stays so.
pub proof fn every_write_ends(policy: WritePolicy, outcomes: Seq<bool>)
    requires
        outcomes.len() >= 7,
    ensures
        ({
            let last = actions_taken(policy, outcomes).last();
            last == FileAction::Done || last == FileAction::Failed
        }),
    decreases outcomes.len(),
{
    if outcomes.len() > 7 {
        every_write_ends(policy, outcomes.drop_last());
    } else {
        reveal_with_fuel(actions_taken, 8);
    }
}

/// What the target holds after a sequence of outcomes, where it held `before` and
/// the temporary file is to hold `contents`. A replacement or a rename that
/// succeeds puts the temporary file in its place; nothing else touches it.
pub open spec fn target_after<T>(
    policy: WritePolicy,
    outcomes: Seq<bool>,
    before: Option<T>,
    contents: T,
) -> Option<T>
    decreases outcomes.len(),
{
    if outcomes.len() == 0 {
        before
    } else {
        let rest = outcomes.drop_last();
        if touches_target(actions_taken(policy, rest).last()) && outcomes.last() {
            Some(contents)
        } else {
            target_after(policy, rest, before, contents)
        }
    }
}

/// A write is all or nothing: once it is done the target holds the new contents,
/// and until then, as well as after a failure, what it held before.
pub proof fn writes_are_all_or_nothing<T>(
    policy: WritePolicy,
    outcomes: Seq<bool>,
    before: Option<T>,
    contents: T,
)
    ensures
        target_after(policy, outcomes, before, contents) == if actions_taken(
            policy,
            outcomes,
        ).last() == FileAction::Done {
            Some(contents)
        } else {
            before
        },
    decreases outcomes.len(),
{
    if outcomes.len() > 0 {
        writes_are_all_or_nothing(policy, outcomes.drop_last(), before, contents);
    }
}

/// Where a write has failed, no attempt to touch the target has succeeded; where
/// it is done, one has.
pub proof fn failed_writes_leave_the_target(policy: WritePolicy, outcomes: Seq<bool>)
    ensures
        ({
            let actions = actions_taken(policy, outcomes);
            &&& actions.len() == outcomes.len() + 1
            &&& actions.last() == FileAction::Done <==> exists|i: int|
                0 <= i < outcomes.len() && touches_target(#[trigger] actions[i]) && outcomes[i]
            &&& actions.last() == FileAction::Failed ==> forall|i: int|
                0 <= i < outcomes.len() && touches_target(#[trigger] actions[i]) ==> !outcomes[i]
        }),
    decreases outcomes.len(),
{
    if outcomes.len() > 0 {
        let rest = outcomes.drop_last();
        let before = actions_taken(policy, rest);
        let actions = actions_taken(policy, outcomes);
        let n = outcomes.len() as int;
        failed_writes_leave_the_target(policy, rest);
        assert(actions[n - 1] == before.last());
        if before.last() == FileAction::Done {
            let i = choose|i: int|
                0 <= i < rest.len() && touches_target(#[trigger] before[i]) && rest[i];
            assert(touches_target(actions[i]) && outcomes[i]);
        }
        if exists|i: int|
            0 <= i < outcomes.len() && touches_target(#[trigger] actions[i]) && outcomes[i] {
            let i = choose|i: int|
                0 <= i < outcomes.len() && touches_target(#[trigger] actions[i]) && outcomes[i];
            if i < n - 1 {
                assert(touches_target(before[i]) && rest[i]);
            }
        }
    }
}

} // verus!
