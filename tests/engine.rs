use gxsync::clock::{in_window, received_millis, window_start, MILLIS_PER_DAY};
use gxsync::filter::folder_set;
use gxsync::sync::{select_folders, sync_folder, FolderInfo, MessageInfo};
use gxsync::sync_state::SyncState;

const NOW: i64 = 1_700_000_000_000;

fn folder(id: &str, name: &str) -> FolderInfo {
    FolderInfo { id: id.to_string(), display_name: name.to_string(), total_item_count: 0, unread_item_count: 0 }
}

/// Works out a folder's deliveries and writes each, marking it as written.
fn deliver_all(
    s: &mut SyncState,
    folder: &str,
    msgs: &Vec<MessageInfo>,
    start: i64,
    dry_run: bool,
    at: u64,
) -> Vec<String> {
    let pending = sync_folder(s, folder, msgs, start, dry_run);
    for id in &pending {
        s.mark_synced_at(folder, id, at);
    }
    pending
}

fn msg(id: &str, received_ms: i64) -> MessageInfo {
    MessageInfo { id: id.to_string(), received_ms }
}

#[test]
fn window_boundary_is_inclusive() {
    let start = window_start(NOW, 7);
    assert_eq!(start, NOW - 7 * 86_400_000);
    assert!(in_window(start, start));
    assert!(!in_window(start - 1, start));
    let mut s = SyncState::new();
    let msgs = vec![msg("edge", start), msg("older", start - 1)];
    let d = deliver_all(&mut s, "Inbox", &msgs, start, false, 1);
    assert_eq!(d, vec!["edge"]);
    assert!(!s.contains("older"));
}

#[test]
fn window_start_saturates() {
    assert_eq!(window_start(i64::MIN + 5, 1), i64::MIN);
    assert_eq!(window_start(0, 0), 0);
    assert_eq!(window_start(0, 30), -30 * MILLIS_PER_DAY);
}

#[test]
fn end_to_end_account_scenario() {
    let folders = vec![folder("f1", "Inbox"), folder("f2", "Spam")];
    let wanted = folder_set(&None);
    let unwanted = folder_set(&Some("Spam".to_string()));
    let selected = select_folders(&folders, &wanted, &unwanted);
    assert_eq!(selected, vec![true, false]);

    let start = window_start(NOW, 7);
    let inbox = vec![msg("i1", NOW - 1000), msg("i2", NOW - 3 * MILLIS_PER_DAY), msg("i3", NOW - 8 * MILLIS_PER_DAY)];
    let spam: Vec<MessageInfo> = (0..5).map(|k| msg(&format!("s{k}"), NOW - 1000)).collect();
    let mut state = SyncState::new();
    let mut delivered: Vec<String> = Vec::new();
    let mut queried: Vec<&str> = Vec::new();
    for (i, f) in folders.iter().enumerate() {
        if !selected[i] {
            continue;
        }
        queried.push(f.display_name.as_str());
        let listing = if f.display_name == "Inbox" { &inbox } else { &spam };
        delivered.extend(deliver_all(&mut state, &f.display_name, listing, start, false, 100));
    }
    assert_eq!(queried, vec!["Inbox"]);
    assert_eq!(delivered, vec!["i1", "i2"]);
    assert_eq!(state.len(), 2);
    assert!(state.is_synced("Inbox", "i1"));
    assert!(state.is_synced("Inbox", "i2"));
}

#[test]
fn second_run_delivers_nothing() {
    let start = window_start(NOW, 30);
    let msgs = vec![msg("a", NOW), msg("b", NOW - 1), msg("c", NOW - 40 * MILLIS_PER_DAY)];
    let mut s = SyncState::new();
    let first = deliver_all(&mut s, "Inbox", &msgs, start, false, 1);
    assert_eq!(first, vec!["a", "b"]);
    let before = s.to_bytes().unwrap();
    let second = deliver_all(&mut s, "Inbox", &msgs, window_start(NOW + 5000, 30), false, 2);
    assert!(second.is_empty());
    assert_eq!(s.to_bytes().unwrap(), before);
}

#[test]
fn dry_run_delivers_and_records_nothing() {
    let start = window_start(NOW, 30);
    let msgs: Vec<MessageInfo> = (0..50).map(|k| msg(&format!("m{k}"), NOW - k)).collect();
    let mut s = SyncState::new();
    s.mark_synced_at("Inbox", "old", 1);
    let before = s.to_bytes().unwrap();
    let d = deliver_all(&mut s, "Inbox", &msgs, start, true, 2);
    assert!(d.is_empty());
    assert_eq!(s.to_bytes().unwrap(), before);
}

#[test]
fn repeated_id_in_listing_is_delivered_once() {
    let mut s = SyncState::new();
    let msgs = vec![msg("a", NOW), msg("a", NOW)];
    let d = deliver_all(&mut s, "Inbox", &msgs, 0, false, 1);
    assert_eq!(d, vec!["a"]);
}

#[test]
fn message_moved_to_another_folder_is_delivered_again() {
    let mut s = SyncState::new();
    deliver_all(&mut s, "Inbox", &vec![msg("m1", NOW)], 0, false, 1);
    let d = deliver_all(&mut s, "Archive", &vec![msg("m1", NOW)], 0, false, 2);
    assert_eq!(d, vec!["m1"]);
    assert!(!s.is_synced("Inbox", "m1"));
}

#[test]
fn received_timestamps_are_parsed() {
    assert_eq!(received_millis("2024-01-02T03:04:05Z"), Some(1_704_164_645_000));
    assert_eq!(received_millis("2024-01-02T03:04:05.250+01:00"), Some(1_704_161_045_250));
    assert_eq!(received_millis("yesterday"), None);
    let m = MessageInfo::from_listing("id1", "1970-01-01T00:00:01Z").unwrap();
    assert_eq!(m.id, "id1");
    assert_eq!(m.received_ms, 1000);
    assert!(MessageInfo::from_listing("id1", "").is_none());
}

#[test]
fn message_file_is_named_by_id() {
    assert_eq!(gxsync::maildir::message_file_name("AAMkAD="), "AAMkAD=.eml");
}

#[test]
fn working_out_deliveries_leaves_the_ledger_alone() {
    let mut s = SyncState::new();
    s.mark_synced_at("Inbox", "a", 1);
    let before = s.to_bytes().unwrap();
    let msgs = vec![msg("a", NOW), msg("b", NOW), msg("b", NOW), msg("c", NOW)];
    let d = sync_folder(&s, "Inbox", &msgs, 0, false);
    assert_eq!(d, vec!["b", "c"]);
    assert_eq!(s.to_bytes().unwrap(), before);
    assert!(!s.contains("b"));
}
