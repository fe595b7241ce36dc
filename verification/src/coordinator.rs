//! The request coordinator: the purely reactive state machine behind the
//! two-phase flow (link submission, then format selection). Each function
//! decides one inbound event; the surrounding process performs the sends,
//! edits and engine calls the decisions name.
use vstd::prelude::*;
use crate::db::{DB, v_contains, v_data, v_set_pending, v_clear_pending, v_record};
use crate::media::Format;
use crate::token::{DownloadRequest, spec_token, decode_token, lemma_token_injective};

verus! {

/// What `url::Url::parse` accepts, and the accepted URL's normalized
/// serialization: a function of the text alone.
pub uninterp spec fn url_norm(s: Seq<char>) -> Option<Seq<char>>;

/// Relies on url::Url::parse and Url::as_str: whether a text parses as an
/// absolute URL, and the parsed URL's serialization, depend on the text
/// alone; both functions return normally on every input.
#[verifier::external_body]
fn parse_url(s: &str) -> (r: Option<String>)
    ensures
        r is Some <==> url_norm(s@) is Some,
        r matches Some(u) ==> url_norm(s@) == Some(u@),
{
    match url::Url::parse(s) {
        Ok(u) => Some(u.as_str().to_string()),
        Err(_) => None,
    }
}

/// The visible outcome of one inbound message.
#[derive(Clone, Copy, PartialEq, Eq, Structural, Debug)]
pub enum MessageAction {
    /// Drop silently: no sender, an unknown sender, or no text.
    Silent,
    /// Reply with the send-a-link hint: the text is not a URL.
    SendLinkHint,
    /// Reply with the format-choice prompt; the URL is now pending.
    Prompt,
}

/// The outcome of one inbound format-choice callback.
#[derive(Debug)]
pub enum CallbackAction {
    /// Drop silently: the sender is unknown.
    Silent,
    /// Reply with the broken-session notice; the registry is untouched.
    BrokenSession,
    /// Hand `url` to the engine with the chosen format.
    StartDownload { url: String, format: Format },
}

/// The outcome of a finished download attempt.
#[derive(Clone, Copy, PartialEq, Eq, Structural, Debug)]
pub enum FinishAction {
    /// Replace the status message with the failure notice.
    Fail,
    /// Replace the status message with the artifact.
    Deliver,
}

/// Decides one inbound message. An unknown or absent sender is dropped with
/// no visible response; a known sender with a non-URL text is told to send a
/// link; a known sender's valid URL is stored as that sender's only pending
/// URL (overwriting any prior one) and the format prompt is ordered.
pub fn handle_message(db: &mut DB, from: Option<u64>, text: Option<&str>) -> (r: MessageAction)
    requires
        old(db).wf(),
    ensures
        final(db).wf(),
        from is None ==> r == MessageAction::Silent && final(db)@ == old(db)@,
        from matches Some(id) && !v_contains(old(db)@, id) ==> r == MessageAction::Silent
            && final(db)@ == old(db)@,
        from matches Some(id) && v_contains(old(db)@, id) && text is None ==> r
            == MessageAction::Silent && final(db)@ == old(db)@,
        (match (from, text) {
            (Some(id), Some(t)) => v_contains(old(db)@, id) ==> (match url_norm(t@) {
                None => r == MessageAction::SendLinkHint && final(db)@ == old(db)@,
                Some(u) => r == MessageAction::Prompt && final(db)@ == v_set_pending(
                    old(db)@,
                    id,
                    u,
                ),
            }),
            _ => true,
        }),
{
    let id = match from {
        Some(id) => id,
        None => {
            return MessageAction::Silent;
        },
    };
    if !db.contains(id) {
        return MessageAction::Silent;
    }
    let t = match text {
        Some(t) => t,
        None => {
            return MessageAction::Silent;
        },
    };
    match parse_url(t) {
        None => MessageAction::SendLinkHint,
        Some(u) => {
            db.set_pending(id, u);
            MessageAction::Prompt
        },
    }
}

/// Decides one inbound callback. An unknown sender is dropped silently. A
/// payload no request serializes to, a missing payload, or an empty pending
/// slot (overwritten and consumed, or lost to a restart) yields the
/// broken-session notice, leaves the registry untouched, and never starts the
/// engine. Otherwise the pending URL is consumed and handed to the engine
/// with the format the payload names.
pub fn callback_decide(db: &mut DB, from: u64, payload: Option<&Vec<u8>>) -> (r: CallbackAction)
    requires
        old(db).wf(),
    ensures
        final(db).wf(),
        !v_contains(old(db)@, from) ==> r is Silent && final(db)@ == old(db)@,
        v_contains(old(db)@, from) && payload is None ==> r is BrokenSession
            && final(db)@ == old(db)@,
        v_contains(old(db)@, from) && (payload matches Some(p) && forall|t: DownloadRequest| p@
            != spec_token(t)) ==> r is BrokenSession && final(db)@ == old(db)@,
        v_contains(old(db)@, from) ==> (match payload {
            Some(p) => forall|t: DownloadRequest|
                p@ == spec_token(t) ==> (match v_data(old(db)@, from).url {
                    Some(u) => (r matches CallbackAction::StartDownload { url, format } && url@
                        == u && format == t.format) && final(db)@ == v_clear_pending(
                        old(db)@,
                        from,
                    ),
                    None => r is BrokenSession && final(db)@ == old(db)@,
                }),
            None => true,
        }),
{
    if !db.contains(from) {
        return CallbackAction::Silent;
    }
    let p = match payload {
        Some(p) => p,
        None => {
            return CallbackAction::BrokenSession;
        },
    };
    let req = match decode_token(p) {
        Some(req) => req,
        None => {
            return CallbackAction::BrokenSession;
        },
    };
    proof {
        assert forall|t: DownloadRequest| p@ == spec_token(t) implies t == req by {
            lemma_token_injective(t, req);
        }
    }
    match db.take_pending(from) {
        Some(u) => CallbackAction::StartDownload { url: u, format: req.format },
        None => {
            proof {
                let v0 = old(db)@;
                let i = crate::db::v_idx(v0, from);
                assert(0 <= i < v0.len() && v0[i].0 == from);
                assert(crate::db::v_with_url(v_data(v0, from), None) == v_data(v0, from));
                assert(v0[i] == (v0[i].0, v0[i].1));
                assert(v_clear_pending(v0, from) =~= v0);
            }
            CallbackAction::BrokenSession
        },
    }
}

/// Decides the end of a download attempt. Only a confirmed artifact bumps
/// the matching counter of the requesting user (if still allow-listed) and
/// orders delivery; anything else orders the failure notice and changes
/// nothing.
pub fn finish_download(db: &mut DB, from: u64, format: Format, got_media: bool) -> (r:
    FinishAction)
    requires
        old(db).wf(),
        got_media && v_contains(old(db)@, from) ==> (if format is AudioOnly {
            v_data(old(db)@, from).downloads.audios < u64::MAX
        } else {
            v_data(old(db)@, from).downloads.videos < u64::MAX
        }),
    ensures
        final(db).wf(),
        !got_media ==> r == FinishAction::Fail && final(db)@ == old(db)@,
        got_media && !v_contains(old(db)@, from) ==> r == FinishAction::Deliver && final(db)@
            == old(db)@,
        got_media && v_contains(old(db)@, from) ==> r == FinishAction::Deliver && final(db)@
            == v_record(old(db)@, from, format is AudioOnly),
    {
    if !got_media {
        return FinishAction::Fail;
    }
    let is_audio = format.is_audio_only();
    db.record_download(from, is_audio);
    FinishAction::Deliver
}

} // verus!
