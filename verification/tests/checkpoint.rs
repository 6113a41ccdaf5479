//! The checkpoint: stored positions by channel.

use windows_event_log::atomic_file::{AtomicWrite, FileAction};
use windows_event_log::checkpoint::{
    save_policy, ChannelCheckpoint, ChannelPosition, CheckpointError, CheckpointState,
    Checkpointer, DirectoryOutcome, LoadOutcome,
};
use windows_event_log::time::Timestamp;

fn now() -> Timestamp {
    Timestamp::new(1_700_000_000, 250_000_000).unwrap()
}

fn fresh() -> Checkpointer {
    Checkpointer::new(DirectoryOutcome::Created, LoadOutcome::NotFound).unwrap()
}

fn test_bookmark_xml(channel: &str, record_id: u64) -> String {
    format!(
        r#"<BookmarkList><Bookmark Channel="{}" RecordId="{}" IsCurrent="True"/></BookmarkList>"#,
        channel, record_id
    )
}

fn position(channel: &str, bookmark: &str) -> ChannelPosition {
    ChannelPosition::bookmark_only(channel.to_string(), bookmark.to_string())
}

#[test]
fn test_checkpoint_basic_operations() {
    let mut checkpointer = fresh();
    assert!(checkpointer.get("System").is_none());

    let bookmark = test_bookmark_xml("System", 12345);
    checkpointer.set("System".to_string(), bookmark.clone(), now());

    let checkpoint = checkpointer.get("System").unwrap();
    assert_eq!(checkpoint.channel, "System");
    assert_eq!(checkpoint.bookmark_xml, bookmark);
    assert_eq!(checkpoint.updated_at, "2023-11-14T22:13:20.250+00:00");
}

#[test]
fn test_checkpoint_update() {
    let mut checkpointer = fresh();
    checkpointer.set(
        "System".to_string(),
        test_bookmark_xml("System", 100),
        now(),
    );
    let bookmark2 = test_bookmark_xml("System", 200);
    checkpointer.set("System".to_string(), bookmark2.clone(), now());
    assert_eq!(checkpointer.get("System").unwrap().bookmark_xml, bookmark2);
    assert_eq!(checkpointer.list().len(), 1);
}

#[test]
fn test_checkpoint_multiple_channels() {
    let mut checkpointer = fresh();
    let bookmarks = [
        ("System", test_bookmark_xml("System", 100)),
        ("Application", test_bookmark_xml("Application", 200)),
        ("Security", test_bookmark_xml("Security", 300)),
    ];
    for (channel, bookmark) in &bookmarks {
        checkpointer.set(channel.to_string(), bookmark.clone(), now());
    }
    for (channel, bookmark) in &bookmarks {
        assert_eq!(&checkpointer.get(channel).unwrap().bookmark_xml, bookmark);
    }
}

#[test]
fn test_checkpoint_remove() {
    let mut checkpointer = fresh();
    checkpointer.set(
        "System".to_string(),
        test_bookmark_xml("System", 100),
        now(),
    );
    assert!(checkpointer.get("System").is_some());
    checkpointer.set("Security".to_string(), "x".to_string(), now());

    checkpointer.remove("System");
    assert!(checkpointer.get("System").is_none());
    assert_eq!(checkpointer.get("Security").unwrap().bookmark_xml, "x");
    checkpointer.remove("System");
    assert_eq!(checkpointer.list().len(), 1);
}

#[test]
fn test_checkpoint_list() {
    let mut checkpointer = fresh();
    assert!(checkpointer.list().is_empty());
    checkpointer.set(
        "System".to_string(),
        test_bookmark_xml("System", 100),
        now(),
    );
    checkpointer.set(
        "Application".to_string(),
        test_bookmark_xml("Application", 200),
        now(),
    );
    let mut channels: Vec<String> = checkpointer
        .list()
        .into_iter()
        .map(|c| c.channel)
        .collect();
    channels.sort();
    assert_eq!(channels, vec!["Application", "System"]);
}

#[test]
fn test_checkpoint_batch_update() {
    let mut checkpointer = fresh();
    let system_bookmark = test_bookmark_xml("System", 100);
    let app_bookmark = test_bookmark_xml("Application", 200);
    let security_bookmark = test_bookmark_xml("Security", 300);

    let changed = checkpointer.set_batch(
        &vec![
            position("System", &system_bookmark),
            position("Application", &app_bookmark),
            position("Security", &security_bookmark),
        ],
        now(),
    );
    assert!(changed);

    assert_eq!(
        checkpointer.get("System").unwrap().bookmark_xml,
        system_bookmark
    );
    assert_eq!(
        checkpointer.get("Application").unwrap().bookmark_xml,
        app_bookmark
    );
    assert_eq!(
        checkpointer.get("Security").unwrap().bookmark_xml,
        security_bookmark
    );
}

#[test]
fn positions_are_stored_at_full_precision() {
    let mut checkpointer = fresh();
    checkpointer.set_batch(
        &vec![ChannelPosition {
            channel: "System".to_string(),
            bookmark_xml: "<BookmarkList/>".to_string(),
            last_event_time: Some("2026-08-07T14:03:11.1234567Z".to_string()),
            last_record_id: Some(91827),
        }],
        now(),
    );
    let loaded = checkpointer.get("System").unwrap();
    assert_eq!(
        loaded.last_event_time.as_deref(),
        Some("2026-08-07T14:03:11.1234567Z")
    );
    assert_eq!(loaded.last_record_id, Some(91827));
}

#[test]
fn test_checkpoint_batch_empty() {
    let mut checkpointer = fresh();
    assert!(!checkpointer.set_batch(&Vec::new(), now()));
    assert!(checkpointer.list().is_empty());
}

/// The last position of a channel in a batch wins.
#[test]
fn the_last_position_of_a_batch_wins() {
    let mut checkpointer = fresh();
    checkpointer.set_batch(
        &vec![
            position("System", "old"),
            position("Application", "a"),
            position("System", "new"),
        ],
        now(),
    );
    assert_eq!(checkpointer.get("System").unwrap().bookmark_xml, "new");
    assert_eq!(checkpointer.get("Application").unwrap().bookmark_xml, "a");
}

/// What was loaded is what is there; a corrupt file starts over.
#[test]
fn a_corrupt_file_starts_over_and_a_good_one_is_taken() {
    let mut state = CheckpointState::default();
    state.channels.insert(
        "System".to_string(),
        ChannelCheckpoint {
            channel: "System".to_string(),
            bookmark_xml: "stored".to_string(),
            updated_at: "2023-11-14T22:13:20Z".to_string(),
            last_event_time: None,
            last_record_id: None,
        },
    );
    let loaded =
        Checkpointer::new(DirectoryOutcome::AlreadyExists, LoadOutcome::Parsed(state)).unwrap();
    assert_eq!(loaded.get("System").unwrap().bookmark_xml, "stored");

    let corrupt = Checkpointer::new(DirectoryOutcome::Created, LoadOutcome::Unparsable).unwrap();
    assert!(corrupt.list().is_empty());

    let unmakable = Checkpointer::new(DirectoryOutcome::Failed, LoadOutcome::NotFound);
    assert_eq!(unmakable.err(), Some(CheckpointError::Directory));
    let unreadable = Checkpointer::new(DirectoryOutcome::Created, LoadOutcome::ReadFailed);
    assert_eq!(unreadable.err(), Some(CheckpointError::Read));
}

#[test]
fn a_bookmark_alone_carries_no_time_and_no_record() {
    let alone = position("System", "s");
    assert_eq!(alone.channel, "System");
    assert_eq!(alone.bookmark_xml, "s");
    assert_eq!(alone.last_event_time, None);
    assert_eq!(alone.last_record_id, None);
}

/// The checkpoint file is replaced in one operation where it exists, and renamed
/// into place where it does not.
#[test]
fn the_checkpoint_file_is_replaced_as_a_whole() {
    let mut write = AtomicWrite::start(save_policy());
    while write.action != FileAction::SyncTemp {
        write.advance(true);
    }
    let last = write.advance(true);
    assert!(matches!(
        last,
        FileAction::ReplaceTarget | FileAction::RenameTemp
    ));
    while write.action != FileAction::Done {
        write.advance(true);
    }
}

#[test]
fn test_checkpoint_persistence() {
    let system_bookmark = test_bookmark_xml("System", 100);
    let app_bookmark = test_bookmark_xml("Application", 200);

    let mut checkpointer = fresh();
    checkpointer.set("System".to_string(), system_bookmark.clone(), now());
    checkpointer.set("Application".to_string(), app_bookmark.clone(), now());

    // A restart takes what was written.
    let written = checkpointer.state;
    let restarted = Checkpointer::new(
        DirectoryOutcome::AlreadyExists,
        LoadOutcome::Parsed(written),
    )
    .unwrap();
    assert_eq!(
        restarted.get("System").unwrap().bookmark_xml,
        system_bookmark
    );
    assert_eq!(
        restarted.get("Application").unwrap().bookmark_xml,
        app_bookmark
    );
}

#[test]
fn test_corrupted_checkpoint_file() {
    let mut checkpointer =
        Checkpointer::new(DirectoryOutcome::AlreadyExists, LoadOutcome::Unparsable).unwrap();
    assert!(checkpointer.get("System").is_none());

    let bookmark = test_bookmark_xml("System", 100);
    checkpointer.set("System".to_string(), bookmark.clone(), now());
    assert_eq!(checkpointer.get("System").unwrap().bookmark_xml, bookmark);
}

#[test]
fn test_checkpoint_batch_persistence() {
    let system_bookmark = test_bookmark_xml("System", 100);
    let app_bookmark = test_bookmark_xml("Application", 200);

    let mut checkpointer = fresh();
    assert!(checkpointer.set_batch(
        &vec![
            position("System", &system_bookmark),
            position("Application", &app_bookmark),
        ],
        now(),
    ));
    let written = checkpointer.state;
    let restarted = Checkpointer::new(
        DirectoryOutcome::AlreadyExists,
        LoadOutcome::Parsed(written),
    )
    .unwrap();
    assert_eq!(
        restarted.get("System").unwrap().bookmark_xml,
        system_bookmark
    );
    assert_eq!(
        restarted.get("Application").unwrap().bookmark_xml,
        app_bookmark
    );
}

/// The entries of a file may come back in any order.
#[test]
fn a_checkpoint_reopened_over_its_entries_answers_alike() {
    let mut checkpointer = fresh();
    assert!(checkpointer.set_batch(
        &vec![
            position("System", "old"),
            position("Application", "app"),
            position("System", "new"),
        ],
        now(),
    ));
    let mut entries = checkpointer.state.to_entries();
    assert_eq!(entries.len(), 2);
    entries.reverse();
    let state = CheckpointState::from_entries(checkpointer.state.version, &entries);
    assert_eq!(state.version, checkpointer.state.version);
    let reopened = Checkpointer::new(
        DirectoryOutcome::AlreadyExists,
        LoadOutcome::Parsed(state),
    )
    .unwrap();
    for channel in ["System", "Application", "Security"] {
        assert_eq!(reopened.get(channel), checkpointer.get(channel));
    }
    assert_eq!(reopened.get("System").unwrap().bookmark_xml, "new");
}

/// Whatever fails, the file holds what it held; once done, what was saved.
#[test]
fn a_failed_save_leaves_the_file_as_it_was() {
    for failing in 0..8usize {
        let mut write = AtomicWrite::start(save_policy());
        let mut target = "old";
        let mut step = 0;
        while !matches!(write.action, FileAction::Done | FileAction::Failed) {
            // The replacement fails where there is no file yet; then from one step on
            // everything does.
            let ok = step < failing && write.action != FileAction::ReplaceTarget;
            if ok && write.action == FileAction::RenameTemp {
                target = "new";
            }
            write.advance(ok);
            step += 1;
            if write.action != FileAction::Done {
                assert_eq!(target, "old");
            }
        }
        let done = write.action == FileAction::Done;
        assert_eq!(target, if done { "new" } else { "old" });
        assert_eq!(done, failing > 4);
    }
}
