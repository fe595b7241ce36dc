//! User-facing texts in the two supported languages.
use vstd::prelude::*;
use crate::media::Format;

verus! {

/// The language replies are rendered in, chosen from the sender's
/// IETF language tag; everything else falls back to English.
#[derive(Clone, Copy, PartialEq, Eq, Structural, Debug)]
pub enum Language {
    English,
    Russian,
}

/// The language tag that selects Russian.
pub open spec fn ru_tag() -> Seq<u8> {
    seq![114u8, 117u8]
}

/// Which language a sender's optional language tag selects.
pub open spec fn spec_language_of(code: Option<Seq<u8>>) -> Language {
    match code {
        Some(s) => if s == ru_tag() {
            Language::Russian
        } else {
            Language::English
        },
        None => Language::English,
    }
}

impl Language {
    /// Picks the reply language from an IETF language tag, UTF-8 encoded;
    /// any tag but "ru" (including "en" and a missing one) selects English.
    pub fn from_code(code: &Option<Vec<u8>>) -> (r: Language)
        ensures
            r == spec_language_of(
                match *code {
                    Some(ref v) => Some(v@),
                    None => None,
                },
            ),
    {
        match code {
            Some(v) => {
                if v.len() == 2 && v[0] == 114u8 && v[1] == 117u8 {
                    proof {
                        assert(v@ =~= ru_tag());
                    }
                    Language::Russian
                } else {
                    proof {
                        if v@ == ru_tag() {
                            assert(v@.len() == 2);
                            assert(v@[0] == 114u8 && v@[1] == 117u8);
                        }
                    }
                    Language::English
                }
            },
            None => Language::English,
        }
    }
}

/// The replies the bot can send during the request flow.
#[derive(Clone, Copy, PartialEq, Eq, Structural, Debug)]
pub enum Response {
    ErrorSendALink,
    ErrorBrokenSession,
    ChooseFormat,
    PleaseWaitForTheMedia,
    ErrorFailedToDownload,
}

/// The exact text of each reply in each language.
pub open spec fn spec_response_text(r: Response, language: Language) -> Seq<char> {
    match (r, language) {
        (Response::ErrorSendALink, Language::English) => "Hi! I can download from YouTube, send a link to a video"@,
        (Response::ErrorSendALink, Language::Russian) => "Привет! Я умею скачивать с ютуба, отправь ссылку на видео"@,
        (Response::ErrorBrokenSession, Language::English) => "Please repeat your request, it's been too long I've forgotten X_X"@,
        (Response::ErrorBrokenSession, Language::Russian) => "Пожалуйста повторите свой запрос, я забыл какая ссылка была X_X"@,
        (Response::ChooseFormat, Language::English) => "Choose what you want to download:"@,
        (Response::ChooseFormat, Language::Russian) => "Выбери формат:"@,
        (Response::PleaseWaitForTheMedia, Language::English) => "The downloaded media will be attached to this message ⌛"@,
        (Response::PleaseWaitForTheMedia, Language::Russian) => "Как скачаю, прикреплю в это сообщение ⌛"@,
        (Response::ErrorFailedToDownload, Language::English) => "Failed to download :("@,
        (Response::ErrorFailedToDownload, Language::Russian) => "Не удалось скачать :("@,
    }
}

impl Response {
    /// The text of this reply in the given language.
    pub fn as_str(&self, language: Language) -> (r: &'static str)
        ensures
            r@ == spec_response_text(*self, language),
    {
        match (self, language) {
            (Response::ErrorSendALink, Language::English) => "Hi! I can download from YouTube, send a link to a video",
            (Response::ErrorSendALink, Language::Russian) => "Привет! Я умею скачивать с ютуба, отправь ссылку на видео",
            (Response::ErrorBrokenSession, Language::English) => "Please repeat your request, it's been too long I've forgotten X_X",
            (Response::ErrorBrokenSession, Language::Russian) => "Пожалуйста повторите свой запрос, я забыл какая ссылка была X_X",
            (Response::ChooseFormat, Language::English) => "Choose what you want to download:",
            (Response::ChooseFormat, Language::Russian) => "Выбери формат:",
            (Response::PleaseWaitForTheMedia, Language::English) => "The downloaded media will be attached to this message ⌛",
            (Response::PleaseWaitForTheMedia, Language::Russian) => "Как скачаю, прикреплю в это сообщение ⌛",
            (Response::ErrorFailedToDownload, Language::English) => "Failed to download :(",
            (Response::ErrorFailedToDownload, Language::Russian) => "Не удалось скачать :(",
        }
    }
}

/// The exact label of each format button in each language.
pub open spec fn spec_format_label(f: Format, language: Language) -> Seq<char> {
    match (f, language) {
        (Format::FullHD, Language::English) => "📺 High quality"@,
        (Format::FullHD, Language::Russian) => "📺 Высокое качество"@,
        (Format::HD, Language::English) => "📺 Normal quality"@,
        (Format::HD, Language::Russian) => "📺 Среднее качество"@,
        (Format::LowRes, Language::English) => "📺 Low quality"@,
        (Format::LowRes, Language::Russian) => "📺 Низкое качество"@,
        (Format::AudioOnly, Language::English) => "🔊 Audio-only"@,
        (Format::AudioOnly, Language::Russian) => "🔊 Только звук"@,
    }
}

impl Format {
    /// The label of this format's button in the given language.
    pub fn as_str(&self, language: Language) -> (r: &'static str)
        ensures
            r@ == spec_format_label(*self, language),
    {
        match (self, language) {
            (Format::FullHD, Language::English) => "📺 High quality",
            (Format::FullHD, Language::Russian) => "📺 Высокое качество",
            (Format::HD, Language::English) => "📺 Normal quality",
            (Format::HD, Language::Russian) => "📺 Среднее качество",
            (Format::LowRes, Language::English) => "📺 Low quality",
            (Format::LowRes, Language::Russian) => "📺 Низкое качество",
            (Format::AudioOnly, Language::English) => "🔊 Audio-only",
            (Format::AudioOnly, Language::Russian) => "🔊 Только звук",
        }
    }
}

} // verus!
