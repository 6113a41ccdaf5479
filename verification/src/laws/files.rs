//! How files are replaced, and what checkpoints hold.

use vstd::prelude::*;

use crate::atomic_file::{AtomicWrite, FileAction, WritePolicy};
use crate::checkpoint::{
    ChannelCheckpoint, ChannelPosition, CheckpointError, CheckpointState, Checkpointer,
    DirectoryOutcome, LoadOutcome,
};
use crate::time::Timestamp;

verus! {

// ---------------------------------------------------------------------------
// Replacing a file
// ---------------------------------------------------------------------------
/// The steps of a replacement in which all goes well: the directory where it is
/// asked for, the temporary file made, written and flushed, and then one step that
/// puts it in place.
pub open spec fn steps(policy: WritePolicy) -> Seq<FileAction> {
    (if policy.make_directory {
        seq![FileAction::CreateDirectory]
    } else {
        Seq::empty()
    }) + seq![FileAction::CreateTemp, FileAction::WriteTemp, FileAction::SyncTemp] + seq![
        if policy.replace_first {
            FileAction::ReplaceTarget
        } else {
            FileAction::RenameTemp
        },
    ]
}

/// A replacement begins with the first of its steps; each that succeeds is followed
/// by the next, and the last by the end.
pub proof fn replacements_go_step_by_step(policy: WritePolicy, i: int)
    requires
        0 <= i < steps(policy).len(),
    ensures
        crate::atomic_file::first_action(policy) == steps(policy)[0],
        i + 1 < steps(policy).len() ==> crate::atomic_file::next_action(
            policy,
            steps(policy)[i],
            true,
        ) == steps(policy)[i + 1],
        i + 1 == steps(policy).len() ==> crate::atomic_file::next_action(
            policy,
            steps(policy)[i],
            true,
        ) == FileAction::Done,
{
}

/// A step before the file is complete ends the replacement where it fails. Where the
/// target could not be replaced the file is renamed; where it could not be renamed
/// it is removed, if that is asked for, and the replacement has failed.
pub proof fn failed_steps_end_the_replacement(policy: WritePolicy, ok: bool)
    ensures
        crate::atomic_file::next_action(policy, FileAction::CreateDirectory, false)
            == FileAction::Failed,
        crate::atomic_file::next_action(policy, FileAction::CreateTemp, false)
            == FileAction::Failed,
        crate::atomic_file::next_action(policy, FileAction::WriteTemp, false)
            == FileAction::Failed,
        crate::atomic_file::next_action(policy, FileAction::SyncTemp, false)
            == FileAction::Failed,
        crate::atomic_file::next_action(policy, FileAction::ReplaceTarget, false)
            == FileAction::RenameTemp,
        crate::atomic_file::next_action(policy, FileAction::RenameTemp, true) == FileAction::Done,
        policy.remove_temp ==> crate::atomic_file::next_action(
            policy,
            FileAction::RenameTemp,
            false,
        ) == FileAction::RemoveTemp,
        !policy.remove_temp ==> crate::atomic_file::next_action(
            policy,
            FileAction::RenameTemp,
            false,
        ) == FileAction::Failed,
        crate::atomic_file::next_action(policy, FileAction::RemoveTemp, ok) == FileAction::Failed,
        crate::atomic_file::next_action(policy, FileAction::Done, ok) == FileAction::Done,
        crate::atomic_file::next_action(policy, FileAction::Failed, ok) == FileAction::Failed,
{
}

/// A replacement in progress takes exactly those steps.
pub proof fn writes_take_the_steps(
    policy: WritePolicy,
    write: AtomicWrite,
    going: &mut AtomicWrite,
    ok: bool,
    action: FileAction,
)
    requires
        call_ensures(AtomicWrite::start, (policy,), write),
        call_ensures(AtomicWrite::advance, (going, ok), action),
    ensures
        write.policy == policy,
        write.action == steps(policy)[0],
        final(going).policy == old(going).policy,
        final(going).action == action,
        forall|i: int|
            0 <= i && i + 1 < steps(old(going).policy).len() && ok && old(going).action
                == #[trigger] steps(old(going).policy)[i] ==> action == steps(old(going).policy)[i
                + 1],
        action == FileAction::Done && old(going).action != FileAction::Done ==> ok && (
        old(going).action == FileAction::ReplaceTarget || old(going).action
            == FileAction::RenameTemp),
{
    assert forall|i: int|
        0 <= i && i + 1 < steps(old(going).policy).len() && ok && old(going).action
            == #[trigger] steps(old(going).policy)[i] implies action == steps(old(going).policy)[i
        + 1] by {
        replacements_go_step_by_step(old(going).policy, i);
    }
}

/// The status file is put in place by a rename in a directory that is made, and a
/// temporary file that stays is removed; the checkpoint replaces the one that is
/// there.
pub proof fn files_have_their_policies(directory: &str, status: WritePolicy, save: WritePolicy)
    requires
        call_ensures(crate::status::write_atomic, (directory,), status),
        call_ensures(crate::checkpoint::save_policy, (), save),
    ensures
        status.make_directory <==> directory@.len() > 0,
        !status.replace_first,
        status.remove_temp,
        !save.make_directory,
        save.replace_first,
        !save.remove_temp,
{
}

// ---------------------------------------------------------------------------
// Checkpoints
// ---------------------------------------------------------------------------
/// A stored position keeps its channel, bookmark, time and record id, under the time
/// of the update.
pub proof fn positions_are_stored_whole(position: ChannelPosition, stamp: Seq<char>)
    ensures
        position.stored(stamp).channel == position.channel@,
        position.stored(stamp).bookmark_xml == position.bookmark_xml@,
        position.stored(stamp).updated_at == stamp,
        position.stored(stamp).last_record_id == position.last_record_id,
        position.last_event_time is None <==> position.stored(stamp).last_event_time is None,
        position.last_event_time matches Some(text) ==> position.stored(stamp).last_event_time
            == Some(text@),
{
}

/// After a batch every channel of it has the checkpoint of its last update, with all
/// that the update holds; every other channel has the one that it had.
pub proof fn batches_store_every_channel(
    checkpointer: &mut Checkpointer,
    updates: Vec<ChannelPosition>,
    now: Timestamp,
    changed: bool,
    i: int,
    other: Seq<char>,
)
    requires
        call_ensures(Checkpointer::set_batch, (checkpointer, &updates, now), changed),
        forall|j: int|
            0 <= j < updates@.len() ==> (#[trigger] updates@[j]).channel@ != other,
    ensures
        changed <==> updates@.len() > 0,
        0 <= i < updates@.len() && (forall|j: int|
            i < j < updates@.len() ==> (#[trigger] updates@[j]).channel@
                != updates@[i].channel@) ==> ({
            let name = updates@[i].channel@;
            &&& final(checkpointer)@.contains_key(name)
            &&& final(checkpointer)@[name].channel == name
            &&& final(checkpointer)@[name].bookmark_xml == updates@[i].bookmark_xml@
            &&& final(checkpointer)@[name].last_record_id == updates@[i].last_record_id
            &&& final(checkpointer)@[name].last_event_time == crate::status::opt_chars(
                updates@[i].last_event_time,
            )
            &&& final(checkpointer)@[name].updated_at == crate::time::rfc3339(
                now.secs(),
                now.nanos(),
            )
        }),
        old(checkpointer)@.contains_key(other) <==> final(checkpointer)@.contains_key(other),
        old(checkpointer)@.contains_key(other) ==> final(checkpointer)@[other] == old(
            checkpointer,
        )@[other],
{
    let stamp = crate::time::rfc3339(now.secs(), now.nanos());
    let before = old(checkpointer)@;
    if 0 <= i < updates@.len() && (forall|j: int|
        i < j < updates@.len() ==> (#[trigger] updates@[j]).channel@ != updates@[i].channel@) {
        let name = updates@[i].channel@;
        crate::checkpoint::last_update_of_a_batch_wins(before, updates@, stamp, name);
        assert(crate::checkpoint::is_last_of(updates@, i, name));
    }
    crate::checkpoint::last_update_of_a_batch_wins(before, updates@, stamp, other);
    assert(!crate::checkpoint::names_channel(updates@, other));
}

/// A single update sets its channel alone, and a removal takes out its channel
/// alone.
pub proof fn single_changes_touch_one_channel(
    a: &mut Checkpointer,
    channel: String,
    xml: String,
    now: Timestamp,
    b: &mut Checkpointer,
    gone: &str,
    other: Seq<char>,
)
    requires
        call_ensures(Checkpointer::set, (a, channel, xml, now), ()),
        call_ensures(Checkpointer::remove, (b, gone), ()),
    ensures
        final(a)@.contains_key(channel@),
        final(a)@[channel@].channel == channel@,
        final(a)@[channel@].bookmark_xml == xml@,
        final(a)@[channel@].last_event_time is None,
        final(a)@[channel@].last_record_id is None,
        other != channel@ ==> (final(a)@.contains_key(other) <==> old(a)@.contains_key(other)),
        other != channel@ && old(a)@.contains_key(other) ==> final(a)@[other] == old(a)@[other],
        !final(b)@.contains_key(gone@),
        other != gone@ ==> (final(b)@.contains_key(other) <==> old(b)@.contains_key(other)),
        other != gone@ && old(b)@.contains_key(other) ==> final(b)@[other] == old(b)@[other],
{
}

/// A channel is read back as it is stored.
pub proof fn checkpoints_are_read_back(
    checkpointer: Checkpointer,
    channel: &str,
    found: Option<ChannelCheckpoint>,
)
    requires
        call_ensures(Checkpointer::get, (&checkpointer, channel), found),
    ensures
        found is Some <==> checkpointer@.contains_key(channel@),
        found matches Some(c) ==> c.channel@ == checkpointer@[channel@].channel && c.bookmark_xml@
            == checkpointer@[channel@].bookmark_xml && c.last_record_id
            == checkpointer@[channel@].last_record_id,
{
}

/// Checkpoints are what the file holds; a file that is missing or cannot be
/// understood is a fresh start, and only a directory that cannot be made or a file
/// that cannot be read is an error.
pub proof fn checkpoints_start_from_the_file(
    directory: DirectoryOutcome,
    loaded: LoadOutcome,
    result: Result<Checkpointer, CheckpointError>,
)
    requires
        call_ensures(Checkpointer::new, (directory, loaded), result),
    ensures
        directory == DirectoryOutcome::Failed <==> result matches Err(CheckpointError::Directory),
        directory != DirectoryOutcome::Failed && loaded is ReadFailed <==> result matches Err(
            CheckpointError::Read,
        ),
        directory != DirectoryOutcome::Failed ==> (loaded matches LoadOutcome::Parsed(state) ==> (
        result matches Ok(c) && c.state == state)),
        directory != DirectoryOutcome::Failed && (loaded is Unparsable || loaded is NotFound) ==> (
        result matches Ok(c) && c.state.version == 1 && (forall|name: Seq<char>|
            !(#[trigger] c@.contains_key(name)))),
{
}

/// A list of entries gives every name the checkpoint of its last entry.
pub proof fn entries_give_every_name(
    entries: Seq<(String, ChannelCheckpoint)>,
    i: int,
    name: Seq<char>,
)
    ensures
        0 <= i < entries.len() && (forall|j: int|
            i < j < entries.len() ==> (#[trigger] entries[j]).0@ != entries[i].0@)
            ==> crate::checkpoint::entry_map(entries).contains_key(entries[i].0@)
            && crate::checkpoint::entry_map(entries)[entries[i].0@] == entries[i].1,
        (forall|j: int| 0 <= j < entries.len() ==> (#[trigger] entries[j]).0@ != name)
            ==> !crate::checkpoint::entry_map(entries).contains_key(name),
    decreases entries.len(),
{
    if entries.len() > 0 {
        let rest = entries.drop_last();
        let last = entries.len() - 1;
        entries_give_every_name(rest, i, name);
        if 0 <= i < last && (forall|j: int|
            i < j < entries.len() ==> (#[trigger] entries[j]).0@ != entries[i].0@) {
            assert(entries[last].0@ != entries[i].0@);
            assert(rest[i] == entries[i]);
            assert forall|j: int| i < j < rest.len() implies (#[trigger] rest[j]).0@
                != rest[i].0@ by {
                assert(rest[j] == entries[j]);
            }
        }
        if forall|j: int| 0 <= j < entries.len() ==> (#[trigger] entries[j]).0@ != name {
            assert(entries[last].0@ != name);
            assert forall|j: int| 0 <= j < rest.len() implies (#[trigger] rest[j]).0@ != name by {
                assert(rest[j] == entries[j]);
            }
        }
    }
}

/// What is written to the file and read from it again is the same checkpoints.
pub proof fn files_give_back_the_checkpoints(
    state: CheckpointState,
    written: Vec<(String, ChannelCheckpoint)>,
    read: CheckpointState,
)
    requires
        call_ensures(CheckpointState::to_entries, (&state,), written),
        call_ensures(CheckpointState::from_entries, (state.version, &written), read),
    ensures
        read.version == state.version,
        read.channels@ == state.channels@,
{
}

} // verus!
