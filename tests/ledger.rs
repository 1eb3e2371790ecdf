use gxsync::error::GxsyncError;
use gxsync::sync_state::{MessageState, SyncState};

#[test]
fn dedup_is_scoped_to_folder() {
    let mut s = SyncState::new();
    s.mark_synced("Inbox", "m1");
    assert!(!s.is_synced("Archive", "m1"));
    assert!(s.is_synced("Inbox", "m1"));
}

#[test]
fn folder_name_comparison_is_case_sensitive() {
    let mut s = SyncState::new();
    s.mark_synced_at("Inbox", "m1", 5);
    assert!(!s.is_synced("inbox", "m1"));
    assert!(s.contains("m1"));
    assert!(!s.contains("m2"));
}

#[test]
fn marking_again_under_another_folder_overwrites() {
    let mut s = SyncState::new();
    s.mark_synced_at("Inbox", "m1", 10);
    s.mark_synced_at("Archive", "m1", 20);
    assert_eq!(s.len(), 1);
    assert!(!s.is_synced("Inbox", "m1"));
    assert!(s.is_synced("Archive", "m1"));
    let r = s.get("m1").unwrap();
    assert_eq!(r.folder_id, "Archive");
    assert_eq!(r.flags, 0);
    assert_eq!(r.synced_at, 20);
}

#[test]
fn mark_synced_uses_the_current_time() {
    let mut s = SyncState::new();
    s.mark_synced("Inbox", "m1");
    let r = s.get("m1").unwrap();
    assert!(r.synced_at > 1_600_000_000);
    assert_eq!(r.flags, 0);
}

#[test]
fn insert_keeps_the_given_record() {
    let mut s = SyncState::new();
    s.insert("a", MessageState::new("Inbox", 3, 99));
    s.insert("b", MessageState::new("Spam", 0, 7));
    assert_eq!(s.len(), 2);
    let a = s.get("a").unwrap();
    assert_eq!((a.folder_id.as_str(), a.flags, a.synced_at), ("Inbox", 3, 99));
    assert!(s.get("c").is_none());
}

#[test]
fn empty_ledger_round_trips() {
    let s = SyncState::new();
    let bytes = s.to_bytes().unwrap();
    assert_eq!(bytes, vec![0u8]);
    let back = SyncState::from_bytes(&bytes).unwrap();
    assert_eq!(back.len(), 0);
}

#[test]
fn ledger_round_trips_with_similar_ids() {
    let mut s = SyncState::new();
    s.mark_synced_at("Inbox", "AAMk=", 1);
    s.mark_synced_at("Inbox", "AAMk==", 2);
    s.mark_synced_at("Posteingang \u{fc}", "aamk=", 3);
    s.insert("x", MessageState::new("", 255, u64::MAX));
    let back = SyncState::from_bytes(&s.to_bytes().unwrap()).unwrap();
    assert_eq!(back.len(), 4);
    for id in ["AAMk=", "AAMk==", "aamk=", "x"] {
        let a = s.get(id).unwrap();
        let b = back.get(id).unwrap();
        assert_eq!(a.folder_id, b.folder_id);
        assert_eq!(a.flags, b.flags);
        assert_eq!(a.synced_at, b.synced_at);
    }
    assert!(back.is_synced("Posteingang \u{fc}", "aamk="));
}

#[test]
fn encoding_is_bincode_standard_layout() {
    let mut s = SyncState::new();
    s.mark_synced_at("F", "i", 0x0102);
    let b = s.to_bytes().unwrap();
    assert_eq!(b, vec![1, 1, b'i', 1, b'F', 0, 251, 0x02, 0x01]);
}

#[test]
fn reads_a_ledger_file_in_the_map_layout() {
    let b: Vec<u8> = vec![1, 2, b'm', b'1', 5, b'I', b'n', b'b', b'o', b'x', 0, 7];
    let s = SyncState::from_bytes(&b).unwrap();
    assert!(s.is_synced("Inbox", "m1"));
    assert_eq!(s.get("m1").unwrap().synced_at, 7);
}

#[test]
fn truncated_ledger_is_a_state_error() {
    let mut s = SyncState::new();
    s.mark_synced_at("Inbox", "m1", 1);
    let b = s.to_bytes().unwrap();
    let r = SyncState::from_bytes(&b[..b.len() - 1]);
    assert!(matches!(r, Err(GxsyncError::State(_))));
    assert!(matches!(SyncState::from_bytes(&[]), Err(GxsyncError::State(_))));
}

#[test]
fn bytes_after_the_records_are_ignored() {
    let mut b = SyncState::new().to_bytes().unwrap();
    b.push(9);
    assert_eq!(SyncState::from_bytes(&b).unwrap().len(), 0);
}

#[test]
fn invalid_utf8_id_is_rejected() {
    let b: Vec<u8> = vec![1, 1, 0xff, 1, b'F', 0, 2];
    assert!(matches!(SyncState::from_bytes(&b), Err(GxsyncError::State(_))));
}

#[test]
fn repeated_id_in_file_keeps_the_later_record() {
    let f: Vec<u8> = vec![2, 1, b'm', 1, b'A', 0, 1, 1, b'm', 1, b'B', 0, 2];
    let s = SyncState::from_bytes(&f).unwrap();
    assert_eq!(s.len(), 1);
    assert!(s.is_synced("B", "m"));
}
