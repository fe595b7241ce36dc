use ytdl_bot::db::{DB, Downloads, UserData};
use ytdl_bot::media::Format;
use ytdl_bot::strings::Language;
use ytdl_bot::token::{DownloadRequest, encode_token, decode_token};
use ytdl_bot::snapshot::{save_snapshot, load_snapshot};
use ytdl_bot::admin::list_users;

#[test]
fn token_round_trips_every_format_and_language() {
    let formats = [Format::FullHD, Format::HD, Format::LowRes, Format::AudioOnly];
    let languages = [Language::English, Language::Russian];
    for format in formats {
        for language in languages {
            let t = DownloadRequest { id: 987654321, format, language };
            let bytes = encode_token(&t);
            assert_eq!(decode_token(&bytes), Some(t));
        }
    }
}

#[test]
fn token_payload_is_short_enough_for_a_button() {
    let t = DownloadRequest { id: u64::MAX, format: Format::FullHD, language: Language::Russian };
    let bytes = encode_token(&t);
    assert_eq!(bytes.len(), 20);
    assert_eq!(decode_token(&bytes), Some(t));
}

#[test]
fn token_rejects_garbage() {
    assert_eq!(decode_token(&b"".to_vec()), None);
    assert_eq!(decode_token(&b"hello".to_vec()), None);
    assert_eq!(decode_token(&b"{\"id\":1,\"format\":2}".to_vec()), None);
}

#[test]
fn token_rejects_truncation_and_tampering() {
    let t = DownloadRequest { id: 42, format: Format::HD, language: Language::English };
    let mut bytes = encode_token(&t);
    let mut truncated = bytes.clone();
    truncated.pop();
    assert_eq!(decode_token(&truncated), None);
    bytes[18] = b'X';
    assert_eq!(decode_token(&bytes), None);
}

#[test]
fn empty_registry_round_trips() {
    let db = DB::new();
    let bytes = save_snapshot(&db);
    let db2 = load_snapshot(&bytes).expect("the snapshot of an empty registry must parse");
    assert_eq!(db2.len(), 0);
}

// Saving and loading reproduces the same (id, alias, counters) records;
// pending URLs are transient and come back empty.
#[test]
fn snapshot_round_trips_records_and_drops_pending() {
    let mut db = DB::new();
    db.add(123, b"alice".to_vec());
    db.add(456, b"bob with spaces".to_vec());
    db.record_download(123, false);
    db.record_download(123, false);
    db.record_download(456, true);
    db.set_pending(123, String::from("https://example.com/v"));
    let bytes = save_snapshot(&db);
    let mut db2 = load_snapshot(&bytes).expect("a saved snapshot must parse");
    let before = list_users(&db);
    let after = list_users(&db2);
    assert_eq!(before.entries, after.entries);
    assert_eq!(after.entries[0].2, Downloads { videos: 2, audios: 0 });
    assert_eq!(after.entries[1].2, Downloads { videos: 0, audios: 1 });
    assert_eq!(db2.take_pending(123), None);
}

#[test]
fn snapshot_survives_awkward_alias_bytes() {
    let mut db = DB::new();
    db.add(1, b"line\nbreak and \xf0\x9f\x93\xba emoji".to_vec());
    let bytes = save_snapshot(&db);
    let db2 = load_snapshot(&bytes).expect("a saved snapshot must parse");
    assert_eq!(list_users(&db).entries, list_users(&db2).entries);
}

#[test]
fn malformed_snapshots_are_rejected() {
    assert!(load_snapshot(&b"".to_vec()).is_none());
    assert!(load_snapshot(&b"not a snapshot".to_vec()).is_none());
    let mut db = DB::new();
    db.add(7, b"u".to_vec());
    let good = save_snapshot(&db);
    let mut bad_magic = good.clone();
    bad_magic[0] = b'X';
    assert!(load_snapshot(&bad_magic).is_none());
    let mut truncated = good.clone();
    truncated.pop();
    assert!(load_snapshot(&truncated).is_none());
    let mut trailing = good.clone();
    trailing.push(0);
    assert!(load_snapshot(&trailing).is_none());
    let mut bad_digit = good.clone();
    bad_digit[4] = b'g';
    assert!(load_snapshot(&bad_digit).is_none());
}

#[test]
fn snapshot_with_duplicate_ids_is_rejected() {
    let db = DB {
        users: vec![
            (7, UserData::aliased(b"a".to_vec())),
            (7, UserData::aliased(b"b".to_vec())),
        ],
    };
    let bytes = save_snapshot(&db);
    assert!(load_snapshot(&bytes).is_none());
}
