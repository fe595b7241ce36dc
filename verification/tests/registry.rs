use ytdl_bot::db::{DB, Downloads, UserData};
use ytdl_bot::admin::{
    add_user, remove_user, list_users, parse_user_id, print_help, AddOutcome, RemoveOutcome,
};
use ytdl_bot::coordinator::{handle_message, MessageAction};

#[test]
fn new_registry_is_empty() {
    let db = DB::new();
    assert_eq!(db.len(), 0);
    assert!(!db.contains(1));
    let listing = list_users(&db);
    assert!(listing.empty);
    assert_eq!(listing.entries.len(), 0);
}

#[test]
fn add_then_contains_and_list() {
    let mut db = DB::new();
    db.add(123, b"alice".to_vec());
    assert!(db.contains(123));
    assert!(!db.contains(124));
    let listing = list_users(&db);
    assert!(!listing.empty);
    assert_eq!(listing.entries.len(), 1);
    assert_eq!(listing.entries[0].0, b"alice".to_vec());
    assert_eq!(listing.entries[0].1, 123);
    assert_eq!(listing.entries[0].2, Downloads { videos: 0, audios: 0 });
}

#[test]
fn list_is_in_insertion_order() {
    let mut db = DB::new();
    db.add(5, b"e".to_vec());
    db.add(1, b"a".to_vec());
    db.add(3, b"c".to_vec());
    let listing = list_users(&db);
    let ids: Vec<u64> = listing.entries.iter().map(|e| e.1).collect();
    assert_eq!(ids, vec![5, 1, 3]);
}

#[test]
fn remove_deletes_only_that_record() {
    let mut db = DB::new();
    db.add(1, b"a".to_vec());
    db.add(2, b"b".to_vec());
    db.remove(1);
    assert!(!db.contains(1));
    assert!(db.contains(2));
    assert_eq!(db.len(), 1);
}

#[test]
fn aliased_starts_fresh() {
    let u = UserData::aliased(b"zoe".to_vec());
    assert_eq!(u.alias, b"zoe".to_vec());
    assert_eq!(u.downloads, Downloads { videos: 0, audios: 0 });
    assert!(u.url.is_none());
}

// Pending-session laws on the executable store.
#[test]
fn pending_taken_exactly_once() {
    let mut db = DB::new();
    db.add(9, b"u".to_vec());
    db.set_pending(9, String::from("https://example.com/a"));
    assert_eq!(db.take_pending(9), Some(String::from("https://example.com/a")));
    assert_eq!(db.take_pending(9), None);
}

#[test]
fn pending_overwrite_keeps_only_newest() {
    let mut db = DB::new();
    db.add(9, b"u".to_vec());
    db.set_pending(9, String::from("A"));
    db.set_pending(9, String::from("B"));
    assert_eq!(db.take_pending(9), Some(String::from("B")));
    assert_eq!(db.take_pending(9), None);
}

#[test]
fn pending_for_unknown_user_is_dropped() {
    let mut db = DB::new();
    db.set_pending(9, String::from("https://example.com/a"));
    assert_eq!(db.take_pending(9), None);
}

#[test]
fn record_download_bumps_matching_counter() {
    let mut db = DB::new();
    db.add(4, b"v".to_vec());
    db.record_download(4, false);
    let listing = list_users(&db);
    assert_eq!(listing.entries[0].2, Downloads { videos: 1, audios: 0 });
    db.record_download(4, true);
    let listing = list_users(&db);
    assert_eq!(listing.entries[0].2, Downloads { videos: 1, audios: 1 });
    db.record_download(4, true);
    let listing = list_users(&db);
    assert_eq!(listing.entries[0].2, Downloads { videos: 1, audios: 2 });
}

#[test]
fn record_download_for_unknown_user_changes_nothing() {
    let mut db = DB::new();
    db.add(4, b"v".to_vec());
    db.record_download(77, false);
    let listing = list_users(&db);
    assert_eq!(listing.entries.len(), 1);
    assert_eq!(listing.entries[0].2, Downloads { videos: 0, audios: 0 });
}

#[test]
fn parse_user_id_accepts_digits() {
    assert_eq!(parse_user_id(&b"123".to_vec()), Some(123));
    assert_eq!(parse_user_id(&b"0".to_vec()), Some(0));
    assert_eq!(parse_user_id(&b"9999999999999999999".to_vec()), Some(9999999999999999999));
}

#[test]
fn parse_user_id_rejects_everything_else() {
    assert_eq!(parse_user_id(&b"".to_vec()), None);
    assert_eq!(parse_user_id(&b"12a".to_vec()), None);
    assert_eq!(parse_user_id(&b"+5".to_vec()), None);
    assert_eq!(parse_user_id(&b"-5".to_vec()), None);
    assert_eq!(parse_user_id(&b" 5".to_vec()), None);
    assert_eq!(parse_user_id(&b"12345678901234567890".to_vec()), None);
}

#[test]
fn add_user_validates_and_inserts() {
    let mut db = DB::new();
    assert_eq!(add_user(&mut db, &b"abc".to_vec(), b"x".to_vec()), AddOutcome::InvalidId);
    assert_eq!(db.len(), 0);
    assert_eq!(add_user(&mut db, &b"123".to_vec(), b"alice".to_vec()), AddOutcome::Added);
    assert!(db.contains(123));
    assert_eq!(
        add_user(&mut db, &b"123".to_vec(), b"other".to_vec()),
        AddOutcome::AlreadyPresent
    );
    let listing = list_users(&db);
    assert_eq!(listing.entries.len(), 1);
    assert_eq!(listing.entries[0].0, b"alice".to_vec());
}

#[test]
fn remove_user_validates_and_deletes() {
    let mut db = DB::new();
    assert_eq!(remove_user(&mut db, &b"nope".to_vec()), RemoveOutcome::InvalidId);
    assert_eq!(remove_user(&mut db, &b"123".to_vec()), RemoveOutcome::NotPresent);
    add_user(&mut db, &b"123".to_vec(), b"alice".to_vec());
    assert_eq!(remove_user(&mut db, &b"123".to_vec()), RemoveOutcome::Removed);
    assert!(!db.contains(123));
}

// Scenario: the admin grants access to 123 as "alice", the listing shows the
// record with zero counters, and after removal an event from 123 is silently
// dropped.
#[test]
fn admin_add_list_remove_scenario() {
    let mut db = DB::new();
    assert_eq!(add_user(&mut db, &b"123".to_vec(), b"alice".to_vec()), AddOutcome::Added);
    assert!(db.contains(123));
    let listing = list_users(&db);
    assert!(!listing.empty);
    assert_eq!(listing.entries[0].0, b"alice".to_vec());
    assert_eq!(listing.entries[0].1, 123);
    assert_eq!(listing.entries[0].2, Downloads { videos: 0, audios: 0 });
    assert_eq!(remove_user(&mut db, &b"123".to_vec()), RemoveOutcome::Removed);
    let act = handle_message(&mut db, Some(123), Some("https://example.com/v"));
    assert_eq!(act, MessageAction::Silent);
}

#[test]
fn help_lists_all_commands() {
    let help = print_help();
    assert!(help.contains("/help"));
    assert!(help.contains("/add"));
    assert!(help.contains("/remove"));
    assert!(help.contains("/list"));
}
