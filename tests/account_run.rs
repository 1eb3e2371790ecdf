use gxsync::account_run::{AccountRun, Action};
use gxsync::config::NormalizedAccountConfig;
use gxsync::sync::{FolderInfo, MessageInfo};
use gxsync::sync_state::SyncState;

const DAY: i64 = 86_400_000;
const NOW: i64 = 1_700_000_000_000;

fn alice(exclude: Option<&str>) -> NormalizedAccountConfig {
    NormalizedAccountConfig {
        mailbox: "alice@example.com".to_string(),
        target: "~/Mail/alice@example.com".to_string(),
        days: 7,
        include_folders: None,
        exclude_folders: exclude.map(|s| s.to_string()),
        auth_profile: "default".to_string(),
    }
}

fn folders() -> Vec<FolderInfo> {
    ["Inbox", "Spam"]
        .iter()
        .enumerate()
        .map(|(i, n)| FolderInfo {
            id: format!("f{i}"),
            display_name: n.to_string(),
            total_item_count: 0,
            unread_item_count: 0,
        })
        .collect()
}

fn listing(folder: &str) -> Vec<MessageInfo> {
    let m = |id: String, t: i64| MessageInfo { id, received_ms: t };
    if folder == "Inbox" {
        vec![m("i1".into(), NOW - DAY), m("i2".into(), NOW - 2 * DAY), m("i3".into(), NOW - 9 * DAY)]
    } else {
        (0..5).map(|k| m(format!("s{k}"), NOW - DAY)).collect()
    }
}

fn drive_and_save(mut run: AccountRun) -> Vec<u8> {
    let start = gxsync::clock::window_start(NOW, 7);
    let mut saved = Vec::new();
    loop {
        match run.next_action() {
            Action::ListFolders => run.folders_listed(folders()),
            Action::ListMessages(i) => {
                let name = run.folders[i].display_name.clone();
                run.messages_listed(i, &listing(&name), start, 42);
            }
            Action::Deliver(_, _) => run.delivered(),
            Action::SaveLedger => {
                saved = run.ledger.to_bytes().unwrap();
                run.ledger_saved();
            }
            Action::Done => return saved,
        }
    }
}

/// Drives a run to its end against fixed listings; returns the folders
/// listed, the deliveries made and the ledger as saved.
fn drive(mut run: AccountRun) -> (Vec<String>, Vec<(String, String)>, usize) {
    let mut listed = Vec::new();
    let mut delivered = Vec::new();
    let mut saves = 0;
    let start = gxsync::clock::window_start(NOW, 7);
    loop {
        match run.next_action() {
            Action::ListFolders => run.folders_listed(folders()),
            Action::ListMessages(i) => {
                let name = run.folders[i].display_name.clone();
                listed.push(name.clone());
                run.messages_listed(i, &listing(&name), start, 42);
            }
            Action::Deliver(i, id) => {
                delivered.push((run.folders[i].display_name.clone(), id));
                run.delivered();
            }
            Action::SaveLedger => {
                saves += 1;
                run.ledger_saved();
            }
            Action::Done => break,
        }
    }
    assert_eq!(saves, 1);
    let n = run.ledger.len();
    (listed, delivered, n)
}

#[test]
fn excluded_folder_is_never_listed() {
    let run = AccountRun::new(&alice(Some("Spam")), false, SyncState::new());
    let (listed, delivered, entries) = drive(run);
    assert_eq!(listed, vec!["Inbox"]);
    assert_eq!(
        delivered,
        vec![("Inbox".to_string(), "i1".to_string()), ("Inbox".to_string(), "i2".to_string())]
    );
    assert_eq!(entries, 2);
}

#[test]
fn every_folder_is_listed_without_filters() {
    let run = AccountRun::new(&alice(None), false, SyncState::new());
    let (listed, delivered, entries) = drive(run);
    assert_eq!(listed, vec!["Inbox", "Spam"]);
    assert_eq!(delivered.len(), 7);
    assert_eq!(entries, 7);
}

#[test]
fn dry_run_asks_for_no_delivery() {
    let run = AccountRun::new(&alice(None), true, SyncState::new());
    let (listed, delivered, entries) = drive(run);
    assert_eq!(listed, vec!["Inbox", "Spam"]);
    assert!(delivered.is_empty());
    assert_eq!(entries, 0);
}

#[test]
fn ids_are_marked_only_once_written() {
    let mut run = AccountRun::new(&alice(Some("spam")), false, SyncState::new());
    let start = gxsync::clock::window_start(NOW, 7);
    run.folders_listed(folders());
    run.messages_listed(0, &listing("Inbox"), start, 5);
    assert_eq!(run.ledger.len(), 0);
    match run.next_action() {
        Action::Deliver(0, id) => assert_eq!(id, "i1"),
        other => panic!("unexpected {other:?}"),
    }
    run.delivered();
    assert_eq!(run.ledger.len(), 1);
    assert!(run.ledger.is_synced("Inbox", "i1"));
    assert_eq!(run.ledger.get("i1").unwrap().synced_at, 5);
    // The second write fails: i2 stays unmarked.
    assert!(!run.ledger.contains("i2"));
}

#[test]
fn exclude_beats_include_for_a_whole_run() {
    let mut account = alice(Some("inbox"));
    account.include_folders = Some("inbox".to_string());
    let run = AccountRun::new(&account, false, SyncState::new());
    let (listed, delivered, entries) = drive(run);
    assert!(listed.is_empty());
    assert!(delivered.is_empty());
    assert_eq!(entries, 0);
}

#[test]
fn rerun_on_the_saved_ledger_delivers_nothing() {
    let run = AccountRun::new(&alice(Some("spam")), false, SyncState::new());
    let saved = drive_and_save(run);
    let again = AccountRun::new(&alice(Some("spam")), false, SyncState::from_bytes(&saved).unwrap());
    let (_, delivered, entries) = drive(again);
    assert!(delivered.is_empty());
    assert_eq!(entries, 2);
}
