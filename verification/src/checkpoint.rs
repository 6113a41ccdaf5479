//! Checkpoints: the position of each channel, as it survives a restart.

use vstd::prelude::*;

use crate::atomic_file::WritePolicy;
use crate::table::NameTable;
use crate::time::Timestamp;

verus! {

/// Name of the checkpoint file inside the data directory.
pub const CHECKPOINT_FILENAME: &'static str = "windows_event_log_checkpoints.json";

/// Version of the checkpoint file.
pub const CHECKPOINT_VERSION: u32 = 1;

/// The stored position of one channel.
#[derive(Debug, PartialEq, Eq)]
pub struct ChannelCheckpoint {
    /// The channel name.
    pub channel: String,
    /// The bookmark, which is the primary position.
    pub bookmark_xml: String,
    /// When this checkpoint was last updated.
    pub updated_at: String,
    /// Time of the last processed event, at full resolution. The resume ladder
    /// falls back to it when the bookmark is dead.
    pub last_event_time: Option<String>,
    /// Record id of the last processed event.
    pub last_record_id: Option<u64>,
}

/// The contents of a checkpoint.
pub struct CheckpointView {
    pub channel: Seq<char>,
    pub bookmark_xml: Seq<char>,
    pub updated_at: Seq<char>,
    pub last_event_time: Option<Seq<char>>,
    pub last_record_id: Option<u64>,
}

impl View for ChannelCheckpoint {
    type V = CheckpointView;

    open spec fn view(&self) -> CheckpointView {
        CheckpointView {
            channel: self.channel@,
            bookmark_xml: self.bookmark_xml@,
            updated_at: self.updated_at@,
            last_event_time: crate::status::opt_chars(self.last_event_time),
            last_record_id: self.last_record_id,
        }
    }
}

impl Clone for ChannelCheckpoint {
    fn clone(&self) -> (copy: ChannelCheckpoint)
        ensures
            copy == *self,
    {
        ChannelCheckpoint {
            channel: self.channel.clone(),
            bookmark_xml: self.bookmark_xml.clone(),
            updated_at: self.updated_at.clone(),
            last_event_time: self.last_event_time.clone(),
            last_record_id: self.last_record_id,
        }
    }
}

/// A checkpoint update for one channel. The time and the record id travel with
/// the bookmark: a bookmark without its fallback cannot be recovered from.
#[derive(Debug, PartialEq, Eq)]
pub struct ChannelPosition {
    pub channel: String,
    pub bookmark_xml: String,
    pub last_event_time: Option<String>,
    pub last_record_id: Option<u64>,
}

impl ChannelPosition {
    /// The checkpoint that this position gives when it is stored at a time with
    /// the text `stamp`.
    pub open spec fn stored(self, stamp: Seq<char>) -> CheckpointView {
        CheckpointView {
            channel: self.channel@,
            bookmark_xml: self.bookmark_xml@,
            updated_at: stamp,
            last_event_time: crate::status::opt_chars(self.last_event_time),
            last_record_id: self.last_record_id,
        }
    }

    /// A position that carries only a bookmark.
    pub fn bookmark_only(channel: String, bookmark_xml: String) -> (position: ChannelPosition)
        ensures
            position.channel == channel,
            position.bookmark_xml == bookmark_xml,
            position.last_event_time is None,
            position.last_record_id is None,
    {
        ChannelPosition { channel, bookmark_xml, last_event_time: None, last_record_id: None }
    }
}

/// All checkpoints.
#[derive(Debug)]
pub struct CheckpointState {
    /// Version of the file.
    pub version: u32,
    /// Checkpoints by channel name.
    pub channels: NameTable<ChannelCheckpoint>,
}

impl Default for CheckpointState {
    fn default() -> (state: CheckpointState)
        ensures
            state.version == CHECKPOINT_VERSION,
            state.channels.wf(),
            state.channels@ == Map::<Seq<char>, ChannelCheckpoint>::empty(),
    {
        CheckpointState { version: CHECKPOINT_VERSION, channels: NameTable::new() }
    }
}

/// Checkpoints under their names. A later entry takes the place of an earlier one.
pub open spec fn entry_map(entries: Seq<(String, ChannelCheckpoint)>) -> Map<
    Seq<char>,
    ChannelCheckpoint,
>
    decreases entries.len(),
{
    if entries.len() == 0 {
        Map::empty()
    } else {
        entry_map(entries.drop_last()).insert(entries.last().0@, entries.last().1)
    }
}

/// Whether no name stands twice.
pub open spec fn names_differ(entries: Seq<(String, ChannelCheckpoint)>) -> bool {
    forall|i: int, j: int|
        0 <= i < j < entries.len() ==> (#[trigger] entries[i]).0@ != (#[trigger] entries[j]).0@
}

/// Whether an entry with this name and checkpoint stands somewhere.
pub open spec fn has_entry(
    entries: Seq<(String, ChannelCheckpoint)>,
    name: Seq<char>,
    checkpoint: ChannelCheckpoint,
) -> bool {
    exists|i: int|
        0 <= i < entries.len() && (#[trigger] entries[i]).0@ == name && entries[i].1 == checkpoint
}

impl CheckpointState {
    /// What the checkpoint file holds of the channels: each name once, with its
    /// checkpoint.
    pub fn to_entries(&self) -> (entries: Vec<(String, ChannelCheckpoint)>)
        requires
            self.channels.wf(),
        ensures
            names_differ(entries@),
            entry_map(entries@) == self.channels@,
    {
        let mut entries: Vec<(String, ChannelCheckpoint)> = Vec::new();
        let mut i: usize = 0;
        let ghost names = self.channels.names();
        while i < self.channels.len()
            invariant
                self.channels.wf(),
                names == self.channels.names(),
                i <= names.len(),
                entries@.len() == i,
                forall|j: int|
                    0 <= j < i ==> (#[trigger] entries@[j]).0@ == names[j]
                        && self.channels@.contains_key(names[j]) && entries@[j].1
                        == self.channels@[names[j]],
            decreases names.len() - i,
        {
            let entry = self.channels.entry(i);
            entries.push((entry.0.to_owned(), entry.1.clone()));
            i += 1;
        }
        proof {
            self.channels.names_are_the_keys();
            assert forall|a: int, b: int| 0 <= a < b < entries@.len() implies (
            #[trigger] entries@[a]).0@ != (#[trigger] entries@[b]).0@ by {
                assert(names[a] != names[b]);
            }
            lemma_entry_map(entries@);
            assert forall|name: Seq<char>|
                entry_map(entries@).contains_key(name) == self.channels@.contains_key(name) by {
                if self.channels@.contains_key(name) {
                    assert(names.contains(name));
                    let j = choose|j: int| 0 <= j < names.len() && names[j] == name;
                    assert(entries@[j].0@ == name);
                    assert(has_entry(entries@, name, entries@[j].1));
                }
                if entry_map(entries@).contains_key(name) {
                    assert(has_entry(entries@, name, entry_map(entries@)[name]));
                    let j = choose|j: int|
                        0 <= j < entries@.len() && (#[trigger] entries@[j]).0@ == name
                            && entries@[j].1 == entry_map(entries@)[name];
                    assert(names[j] == name);
                }
            }
            assert forall|name: Seq<char>| entry_map(entries@).contains_key(name) implies entry_map(
                entries@,
            )[name] == self.channels@[name] by {
                assert(has_entry(entries@, name, entry_map(entries@)[name]));
                let j = choose|j: int|
                    0 <= j < entries@.len() && (#[trigger] entries@[j]).0@ == name && entries@[j].1
                        == entry_map(entries@)[name];
                assert(names[j] == name);
            }
            assert(entry_map(entries@) =~= self.channels@);
        }
        entries
    }

    /// The checkpoints that a file of this version holds.
    pub fn from_entries(version: u32, entries: &Vec<(String, ChannelCheckpoint)>) -> (state:
        CheckpointState)
        ensures
            state.version == version,
            state.channels.wf(),
            state.channels@ == entry_map(entries@),
    {
        let mut channels: NameTable<ChannelCheckpoint> = NameTable::new();
        let mut i: usize = 0;
        assert(channels@ == entry_map(entries@.take(0)));
        while i < entries.len()
            invariant
                i <= entries@.len(),
                channels.wf(),
                channels@ == entry_map(entries@.take(i as int)),
            decreases entries.len() - i,
        {
            channels.insert(entries[i].0.clone(), entries[i].1.clone());
            proof {
                let next = entries@.take(i + 1);
                assert(next.drop_last() =~= entries@.take(i as int));
                assert(next.last() == entries@[i as int]);
            }
            i += 1;
        }
        assert(entries@.take(i as int) =~= entries@);
        CheckpointState { version, channels }
    }
}

/// Entries with distinct names are exactly the pairs of their map.
proof fn lemma_entry_map(entries: Seq<(String, ChannelCheckpoint)>)
    requires
        names_differ(entries),
    ensures
        forall|name: Seq<char>, checkpoint: ChannelCheckpoint| #[trigger]
            has_entry(entries, name, checkpoint) <==> entry_map(entries).contains_key(name)
                && entry_map(entries)[name] == checkpoint,
    decreases entries.len(),
{
    if entries.len() > 0 {
        let rest = entries.drop_last();
        let last = entries.len() - 1;
        assert forall|i: int, j: int| 0 <= i < j < rest.len() implies (#[trigger] rest[i]).0@ != (
        #[trigger] rest[j]).0@ by {
            assert(entries[i].0@ != entries[j].0@);
        }
        lemma_entry_map(rest);
        assert forall|name: Seq<char>, checkpoint: ChannelCheckpoint| #[trigger]
            has_entry(entries, name, checkpoint) <==> entry_map(entries).contains_key(name)
                && entry_map(entries)[name] == checkpoint by {
            if has_entry(entries, name, checkpoint) {
                let i = choose|i: int|
                    0 <= i < entries.len() && (#[trigger] entries[i]).0@ == name && entries[i].1
                        == checkpoint;
                if i < last {
                    assert(rest[i] == entries[i]);
                    assert(has_entry(rest, name, checkpoint));
                    assert(entries[i].0@ != entries[last].0@);
                }
            }
            if entry_map(entries).contains_key(name) && entry_map(entries)[name] == checkpoint {
                if name == entries[last].0@ {
                    assert(entries[last].1 == checkpoint);
                } else {
                    assert(has_entry(rest, name, checkpoint));
                    let i = choose|i: int|
                        0 <= i < rest.len() && (#[trigger] rest[i]).0@ == name && rest[i].1
                            == checkpoint;
                    assert(entries[i] == rest[i]);
                }
            }
        }
    } else {
        assert forall|name: Seq<char>, checkpoint: ChannelCheckpoint|
            !#[trigger] has_entry(entries, name, checkpoint) by {}
    }
}

/// How an attempt to create the data directory ended.
#[derive(Debug, Clone, Copy, PartialEq, Eq, Structural)]
pub enum DirectoryOutcome {
    Created,
    AlreadyExists,
    Failed,
}

/// How an attempt to read the checkpoint file ended.
#[derive(Debug)]
pub enum LoadOutcome {
    /// The file was read and understood.
    Parsed(CheckpointState),
    /// The file was read but could not be understood.
    Unparsable,
    /// There is no file.
    NotFound,
    /// The file could not be read.
    ReadFailed,
}

/// Why no checkpointer could be made.
#[derive(Debug, Clone, Copy, PartialEq, Eq, Structural)]
pub enum CheckpointError {
    /// The data directory could not be created.
    Directory,
    /// The checkpoint file could not be read.
    Read,
}

/// Holds the checkpoints of all channels. Its view maps channel names to
/// checkpoints.
#[derive(Debug)]
pub struct Checkpointer {
    pub state: CheckpointState,
}

impl View for Checkpointer {
    type V = Map<Seq<char>, CheckpointView>;

    open spec fn view(&self) -> Map<Seq<char>, CheckpointView> {
        self.state.channels@.map_values(|c: ChannelCheckpoint| c@)
    }
}

/// Checkpoints after a batch of updates, in order.
pub open spec fn with_batch(
    checkpoints: Map<Seq<char>, CheckpointView>,
    updates: Seq<ChannelPosition>,
    stamp: Seq<char>,
) -> Map<Seq<char>, CheckpointView>
    decreases updates.len(),
{
    if updates.len() == 0 {
        checkpoints
    } else {
        with_batch(checkpoints, updates.drop_last(), stamp).insert(
            updates.last().channel@,
            updates.last().stored(stamp),
        )
    }
}

/// How the checkpoint file is replaced.
pub fn save_policy() -> (policy: WritePolicy)
    ensures
        policy == (WritePolicy {
            make_directory: false,
            replace_first: true,
            remove_temp: false,
        }),
{
    WritePolicy { make_directory: false, replace_first: true, remove_temp: false }
}

impl Checkpointer {
    /// Whether no channel stands twice.
    pub open spec fn wf(self) -> bool {
        self.state.channels.wf()
    }

    /// A checkpointer over what was read from disk. A file that is missing or
    /// cannot be understood is a fresh start; one that cannot be read is an
    /// error.
    pub fn new(directory: DirectoryOutcome, loaded: LoadOutcome) -> (result: Result<
        Checkpointer,
        CheckpointError,
    >)
        requires
            loaded matches LoadOutcome::Parsed(state) ==> state.channels.wf(),
        ensures
            match result {
                Err(CheckpointError::Directory) => directory == DirectoryOutcome::Failed,
                Err(CheckpointError::Read) => directory != DirectoryOutcome::Failed && loaded
                    == LoadOutcome::ReadFailed,
                Ok(checkpointer) => {
                    &&& directory != DirectoryOutcome::Failed
                    &&& checkpointer.wf()
                    &&& match loaded {
                        LoadOutcome::Parsed(state) => checkpointer.state == state,
                        LoadOutcome::Unparsable | LoadOutcome::NotFound => {
                            &&& checkpointer.state.version == CHECKPOINT_VERSION
                            &&& checkpointer@ == Map::<Seq<char>, CheckpointView>::empty()
                        },
                        LoadOutcome::ReadFailed => false,
                    }
                },
            },
    {
        match directory {
            DirectoryOutcome::Failed => {
                return Err(CheckpointError::Directory);
            },
            _ => {},
        }
        match loaded {
            LoadOutcome::Parsed(state) => Ok(Checkpointer { state }),
            LoadOutcome::Unparsable | LoadOutcome::NotFound => {
                let checkpointer = Checkpointer { state: CheckpointState::default() };
                assert(checkpointer@ =~= Map::<Seq<char>, CheckpointView>::empty());
                Ok(checkpointer)
            },
            LoadOutcome::ReadFailed => Err(CheckpointError::Read),
        }
    }

    /// The checkpoint of a channel.
    pub fn get(&self, channel: &str) -> (checkpoint: Option<ChannelCheckpoint>)
        requires
            self.wf(),
        ensures
            checkpoint is Some <==> self@.contains_key(channel@),
            checkpoint matches Some(c) ==> c@ == self@[channel@],
    {
        match self.state.channels.get(channel) {
            Some(c) => Some(c.clone()),
            None => None,
        }
    }

    fn store(&mut self, checkpoint: ChannelCheckpoint)
        requires
            old(self).wf(),
        ensures
            final(self).wf(),
            final(self).state.version == old(self).state.version,
            final(self)@ == old(self)@.insert(checkpoint.channel@, checkpoint@),
    {
        let ghost before = self@;
        let channel = checkpoint.channel.clone();
        self.state.channels.insert(channel, checkpoint);
        assert(self@ =~= before.insert(checkpoint.channel@, checkpoint@));
    }

    /// Set the checkpoint of a channel to a bookmark alone. The caller saves.
    pub fn set(&mut self, channel: String, bookmark_xml: String, now: Timestamp)
        requires
            old(self).wf(),
        ensures
            final(self).wf(),
            final(self).state.version == old(self).state.version,
            final(self)@ == old(self)@.insert(
                channel@,
                CheckpointView {
                    channel: channel@,
                    bookmark_xml: bookmark_xml@,
                    updated_at: crate::time::rfc3339(now.secs(), now.nanos()),
                    last_event_time: None,
                    last_record_id: None,
                },
            ),
    {
        self.store(
            ChannelCheckpoint {
                channel,
                bookmark_xml,
                updated_at: now.to_rfc3339(),
                last_event_time: None,
                last_record_id: None,
            },
        );
    }

    /// Set the checkpoints of several channels. Returns whether there is
    /// anything to save: an empty batch changes nothing.
    pub fn set_batch(&mut self, updates: &Vec<ChannelPosition>, now: Timestamp) -> (changed: bool)
        requires
            old(self).wf(),
        ensures
            final(self).wf(),
            final(self).state.version == old(self).state.version,
            final(self)@ == with_batch(
                old(self)@,
                updates@,
                crate::time::rfc3339(now.secs(), now.nanos()),
            ),
            changed == (updates@.len() > 0),
    {
        if updates.len() == 0 {
            return false;
        }
        let ghost before = self@;
        let ghost version = self.state.version;
        let stamp = now.to_rfc3339();
        let mut i: usize = 0;
        while i < updates.len()
            invariant
                i <= updates@.len(),
                self.wf(),
                self.state.version == version,
                stamp@ == crate::time::rfc3339(now.secs(), now.nanos()),
                self@ == with_batch(before, updates@.take(i as int), stamp@),
            decreases updates.len() - i,
        {
            let position = &updates[i];
            self.store(
                ChannelCheckpoint {
                    channel: position.channel.clone(),
                    bookmark_xml: position.bookmark_xml.clone(),
                    updated_at: stamp.clone(),
                    last_event_time: position.last_event_time.clone(),
                    last_record_id: position.last_record_id,
                },
            );
            proof {
                let next = updates@.take(i + 1);
                assert(next.drop_last() =~= updates@.take(i as int));
                assert(next.last() == updates@[i as int]);
            }
            i += 1;
        }
        assert(updates@.take(i as int) =~= updates@);
        true
    }

    /// Take a channel's checkpoint out. The caller saves.
    pub fn remove(&mut self, channel: &str)
        requires
            old(self).wf(),
        ensures
            final(self).wf(),
            final(self).state.version == old(self).state.version,
            final(self)@ == old(self)@.remove(channel@),
    {
        let ghost before = self@;
        self.state.channels.remove(channel);
        assert(self@ =~= before.remove(channel@));
    }

    /// All checkpoints, each channel once.
    pub fn list(&self) -> (checkpoints: Vec<ChannelCheckpoint>)
        requires
            self.wf(),
        ensures
            checkpoints@.len() == self.state.channels.names().len(),
            self.state.channels.names().no_duplicates(),
            forall|name: Seq<char>|
                self@.contains_key(name) <==> self.state.channels.names().contains(name),
            forall|i: int|
                0 <= i < checkpoints@.len() ==> (#[trigger] checkpoints@[i])@
                    == self@[self.state.channels.names()[i]],
    {
        let mut checkpoints: Vec<ChannelCheckpoint> = Vec::new();
        let mut i: usize = 0;
        while i < self.state.channels.len()
            invariant
                self.wf(),
                i <= self.state.channels.names().len(),
                checkpoints@.len() == i,
                forall|j: int|
                    0 <= j < i ==> (#[trigger] checkpoints@[j])@
                        == self@[self.state.channels.names()[j]],
            decreases self.state.channels.names().len() - i,
        {
            let entry = self.state.channels.entry(i);
            checkpoints.push(entry.1.clone());
            i += 1;
        }
        proof {
            self.state.channels.names_are_the_keys();
        }
        checkpoints
    }
}

/// Whether an update is the last of its channel in a batch.
pub open spec fn is_last_of(updates: Seq<ChannelPosition>, i: int, channel: Seq<char>) -> bool {
    &&& 0 <= i < updates.len()
    &&& updates[i].channel@ == channel
    &&& forall|j: int| i < j < updates.len() ==> (#[trigger] updates[j]).channel@ != channel
}

/// Whether a batch names a channel.
pub open spec fn names_channel(updates: Seq<ChannelPosition>, channel: Seq<char>) -> bool {
    exists|i: int| 0 <= i < updates.len() && (#[trigger] updates[i]).channel@ == channel
}

/// In a batch the last update of a channel wins, and a channel that the batch
/// does not name keeps its checkpoint.
pub proof fn last_update_of_a_batch_wins(
    checkpoints: Map<Seq<char>, CheckpointView>,
    updates: Seq<ChannelPosition>,
    stamp: Seq<char>,
    channel: Seq<char>,
)
    ensures
        ({
            let stored = with_batch(checkpoints, updates, stamp);
            &&& forall|i: int| #[trigger]
                is_last_of(updates, i, channel) ==> stored.contains_key(channel) && stored[channel]
                    == updates[i].stored(stamp)
            &&& !names_channel(updates, channel) ==> {
                &&& stored.contains_key(channel) == checkpoints.contains_key(channel)
                &&& checkpoints.contains_key(channel) ==> stored[channel] == checkpoints[channel]
            }
        }),
    decreases updates.len(),
{
    if updates.len() > 0 {
        let rest = updates.drop_last();
        let last = updates.len() - 1;
        last_update_of_a_batch_wins(checkpoints, rest, stamp, channel);
        let stored = with_batch(checkpoints, updates, stamp);
        assert forall|i: int| #[trigger] is_last_of(updates, i, channel) implies
            stored.contains_key(channel) && stored[channel] == updates[i].stored(stamp) by {
            if i < last {
                assert(updates[last].channel@ != channel);
                assert(rest[i] == updates[i]);
                assert forall|j: int| i < j < rest.len() implies (#[trigger] rest[j]).channel@
                    != channel by {
                    assert(rest[j] == updates[j]);
                }
                assert(is_last_of(rest, i, channel));
            }
        }
        if !names_channel(updates, channel) {
            assert(updates[last].channel@ != channel);
            if names_channel(rest, channel) {
                let i = choose|i: int|
                    0 <= i < rest.len() && (#[trigger] rest[i]).channel@ == channel;
                assert(updates[i].channel@ == channel);
            }
        }
    }
}

/// A checkpoint that is reopened over what was saved answers alike: the order in
/// which a file gives the entries back does not matter, and neither does how they
/// came to be there. So after a batch was saved, the last update of each channel
/// is read back, and a channel that the batch does not name is as it was.
pub proof fn saved_checkpoints_reopen_alike(
    saved: Checkpointer,
    before: Map<Seq<char>, CheckpointView>,
    updates: Seq<ChannelPosition>,
    stamp: Seq<char>,
    written: Seq<(String, ChannelCheckpoint)>,
    read: Seq<(String, ChannelCheckpoint)>,
    reopened: Checkpointer,
)
    requires
        saved@ == with_batch(before, updates, stamp),
        names_differ(written),
        entry_map(written) == saved.state.channels@,
        names_differ(read),
        forall|name: Seq<char>, checkpoint: ChannelCheckpoint| #[trigger]
            has_entry(read, name, checkpoint) == has_entry(written, name, checkpoint),
        reopened.state.channels@ == entry_map(read),
    ensures
        reopened.state.channels@ == saved.state.channels@,
        reopened@ == with_batch(before, updates, stamp),
{
    lemma_entry_map(written);
    lemma_entry_map(read);
    let a = entry_map(read);
    let b = entry_map(written);
    assert forall|name: Seq<char>| a.contains_key(name) == b.contains_key(name) by {
        if a.contains_key(name) {
            assert(has_entry(read, name, a[name]));
            assert(has_entry(written, name, a[name]));
        }
        if b.contains_key(name) {
            assert(has_entry(written, name, b[name]));
            assert(has_entry(read, name, b[name]));
        }
    }
    assert forall|name: Seq<char>| a.contains_key(name) implies a[name] == b[name] by {
        assert(has_entry(read, name, a[name]));
        assert(has_entry(written, name, a[name]));
    }
    assert(a =~= b);
}

/// Saving is all or nothing. Once a save is done, a reopened checkpoint has the
/// version and the channels that were saved; a save that has failed, like one that
/// is still under way, leaves the file with what it held.
pub proof fn saves_are_all_or_nothing(
    policy: WritePolicy,
    outcomes: Seq<bool>,
    before: Option<(u32, Seq<(String, ChannelCheckpoint)>)>,
    saved: CheckpointState,
    written: Seq<(String, ChannelCheckpoint)>,
)
    requires
        entry_map(written) == saved.channels@,
    ensures
        ({
            let file = crate::atomic_file::target_after(
                policy,
                outcomes,
                before,
                (saved.version, written),
            );
            let done = crate::atomic_file::actions_taken(policy, outcomes).last()
                == crate::atomic_file::FileAction::Done;
            &&& done ==> file is Some && (file->0).0 == saved.version && entry_map((file->0).1)
                == saved.channels@
            &&& !done ==> file == before
        }),
{
    crate::atomic_file::writes_are_all_or_nothing(
        policy,
        outcomes,
        before,
        (saved.version, written),
    );
}

} // verus!
