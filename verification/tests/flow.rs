use ytdl_bot::db::{DB, Downloads};
use ytdl_bot::media::{Format, DownloadedMedia};
use ytdl_bot::strings::{Language, Response};
use ytdl_bot::token::{DownloadRequest, encode_token};
use ytdl_bot::coordinator::{
    handle_message, callback_decide, finish_download, MessageAction, CallbackAction, FinishAction,
};
use ytdl_bot::admin::list_users;

// Events from ids absent from the registry yield no visible response.
#[test]
fn unknown_ids_are_dropped_silently() {
    let mut db = DB::new();
    db.add(1, b"known".to_vec());
    let act = handle_message(&mut db, Some(99), Some("https://example.com/v"));
    assert_eq!(act, MessageAction::Silent);
    let token = encode_token(
        &DownloadRequest { id: 5, format: Format::HD, language: Language::English },
    );
    let act = callback_decide(&mut db, 99, Some(&token));
    assert!(matches!(act, CallbackAction::Silent));
    let act = handle_message(&mut db, None, Some("https://example.com/v"));
    assert_eq!(act, MessageAction::Silent);
}

#[test]
fn known_id_with_non_url_text_gets_the_link_hint() {
    let mut db = DB::new();
    db.add(1, b"known".to_vec());
    let act = handle_message(&mut db, Some(1), Some("hello there"));
    assert_eq!(act, MessageAction::SendLinkHint);
    let act = handle_message(&mut db, Some(1), None);
    assert_eq!(act, MessageAction::Silent);
}

// A callback with an unparseable payload, for a known id with no pending
// URL, always yields the broken-session response and never starts a
// download.
#[test]
fn broken_payload_without_pending_is_broken_session() {
    let mut db = DB::new();
    db.add(1, b"known".to_vec());
    let act = callback_decide(&mut db, 1, Some(&b"corrupt payload".to_vec()));
    assert!(matches!(act, CallbackAction::BrokenSession));
    let act = callback_decide(&mut db, 1, None);
    assert!(matches!(act, CallbackAction::BrokenSession));
    // A well-formed payload without a pending URL is a broken session too.
    let token = encode_token(
        &DownloadRequest { id: 5, format: Format::HD, language: Language::English },
    );
    let act = callback_decide(&mut db, 1, Some(&token));
    assert!(matches!(act, CallbackAction::BrokenSession));
}

#[test]
fn broken_payload_does_not_consume_a_pending_url() {
    let mut db = DB::new();
    db.add(1, b"known".to_vec());
    handle_message(&mut db, Some(1), Some("https://example.com/v"));
    let act = callback_decide(&mut db, 1, Some(&b"corrupt payload".to_vec()));
    assert!(matches!(act, CallbackAction::BrokenSession));
    assert_eq!(db.take_pending(1), Some(String::from("https://example.com/v")));
}

// Scenario: a known user sends a well-formed URL, gets the format prompt,
// picks a format, the engine succeeds, and exactly the matching counter
// moves.
#[test]
fn full_download_flow_scenario() {
    let mut db = DB::new();
    db.add(7, b"alice".to_vec());
    let act = handle_message(&mut db, Some(7), Some("https://example.com/v"));
    assert_eq!(act, MessageAction::Prompt);
    let rows = Format::buttons();
    assert_eq!(rows.len(), 4);
    for row in &rows {
        assert_eq!(row.len(), 1);
    }
    let chosen = rows[1][0];
    assert_eq!(chosen, Format::HD);
    let payload = encode_token(
        &DownloadRequest { id: 321, format: chosen, language: Language::English },
    );
    let act = callback_decide(&mut db, 7, Some(&payload));
    match act {
        CallbackAction::StartDownload { url, format } => {
            assert_eq!(url, String::from("https://example.com/v"));
            assert_eq!(format, Format::HD);
        },
        other => panic!("expected a download to start, got {:?}", other),
    }
    let media = DownloadedMedia { title: String::from("v"), path: String::from("v.mp4") };
    assert!(!media.title.is_empty());
    let fin = finish_download(&mut db, 7, Format::HD, true);
    assert_eq!(fin, FinishAction::Deliver);
    let listing = list_users(&db);
    assert_eq!(listing.entries[0].2, Downloads { videos: 1, audios: 0 });
    // The pending URL was consumed: a second press is a broken session.
    let act = callback_decide(&mut db, 7, Some(&payload));
    assert!(matches!(act, CallbackAction::BrokenSession));
}

#[test]
fn failed_download_changes_no_counter() {
    let mut db = DB::new();
    db.add(7, b"alice".to_vec());
    let fin = finish_download(&mut db, 7, Format::FullHD, false);
    assert_eq!(fin, FinishAction::Fail);
    let listing = list_users(&db);
    assert_eq!(listing.entries[0].2, Downloads { videos: 0, audios: 0 });
}

// A video download moves only the video counter; audio-only does the
// reverse.
#[test]
fn counters_move_one_at_a_time() {
    let mut db = DB::new();
    db.add(7, b"alice".to_vec());
    finish_download(&mut db, 7, Format::LowRes, true);
    let listing = list_users(&db);
    assert_eq!(listing.entries[0].2, Downloads { videos: 1, audios: 0 });
    finish_download(&mut db, 7, Format::AudioOnly, true);
    let listing = list_users(&db);
    assert_eq!(listing.entries[0].2, Downloads { videos: 1, audios: 1 });
}

#[test]
fn overwritten_url_is_unrecoverable_through_the_flow() {
    let mut db = DB::new();
    db.add(7, b"alice".to_vec());
    handle_message(&mut db, Some(7), Some("https://example.com/first"));
    handle_message(&mut db, Some(7), Some("https://example.com/second"));
    let payload = encode_token(
        &DownloadRequest { id: 1, format: Format::FullHD, language: Language::English },
    );
    match callback_decide(&mut db, 7, Some(&payload)) {
        CallbackAction::StartDownload { url, .. } => {
            assert_eq!(url, String::from("https://example.com/second"));
        },
        other => panic!("expected a download to start, got {:?}", other),
    }
}

#[test]
fn urls_are_normalized_as_parsed() {
    let mut db = DB::new();
    db.add(7, b"alice".to_vec());
    handle_message(&mut db, Some(7), Some("https://EXAMPLE.com"));
    assert_eq!(db.take_pending(7), Some(String::from("https://example.com/")));
}

#[test]
fn response_texts_are_exact() {
    assert_eq!(
        Response::ErrorSendALink.as_str(Language::English),
        "Hi! I can download from YouTube, send a link to a video"
    );
    assert_eq!(Response::ChooseFormat.as_str(Language::Russian), "Выбери формат:");
    assert_eq!(Response::ErrorFailedToDownload.as_str(Language::English), "Failed to download :(");
    assert_eq!(Response::ErrorFailedToDownload.as_str(Language::Russian), "Не удалось скачать :(");
    assert_eq!(
        Response::ErrorBrokenSession.as_str(Language::English),
        "Please repeat your request, it's been too long I've forgotten X_X"
    );
}

#[test]
fn format_labels_are_exact() {
    assert_eq!(Format::FullHD.as_str(Language::English), "📺 High quality");
    assert_eq!(Format::AudioOnly.as_str(Language::Russian), "🔊 Только звук");
}

#[test]
fn language_comes_from_the_tag() {
    assert_eq!(Language::from_code(&None), Language::English);
    assert_eq!(Language::from_code(&Some(b"en".to_vec())), Language::English);
    assert_eq!(Language::from_code(&Some(b"ru".to_vec())), Language::Russian);
    assert_eq!(Language::from_code(&Some(b"de".to_vec())), Language::English);
    assert_eq!(Language::from_code(&Some(b"rus".to_vec())), Language::English);
}

#[test]
fn video_heights_match_the_formats() {
    assert_eq!(Format::FullHD.video_height(), 1080);
    assert_eq!(Format::HD.video_height(), 720);
    assert_eq!(Format::LowRes.video_height(), 480);
    assert_eq!(Format::AudioOnly.video_height(), 720);
    assert!(Format::AudioOnly.is_audio_only());
    assert!(!Format::HD.is_audio_only());
}

#[test]
fn extensions_match_the_formats() {
    assert_eq!(Format::FullHD.extension(), "mp4");
    assert_eq!(Format::HD.extension(), "mp4");
    assert_eq!(Format::LowRes.extension(), "mp4");
    assert_eq!(Format::AudioOnly.extension(), "mp3");
}
