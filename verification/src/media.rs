//! Media formats a user can choose from, and what the engine returns.
use vstd::prelude::*;

verus! {

/// The formats offered in the prompt: three video qualities and audio-only.
#[derive(Clone, Copy, PartialEq, Eq, Structural, Debug)]
pub enum Format {
    FullHD,
    HD,
    LowRes,
    AudioOnly,
}

/// The video height requested from the engine for each format.
pub open spec fn spec_video_height(f: Format) -> u32 {
    match f {
        Format::FullHD => 1080,
        Format::HD => 720,
        Format::AudioOnly => 720,
        Format::LowRes => 480,
    }
}

/// The file extension of each format's downloaded artifact.
pub open spec fn spec_extension(f: Format) -> Seq<char> {
    if f is AudioOnly {
        "mp3"@
    } else {
        "mp4"@
    }
}

impl Format {
    /// True exactly for the audio-only format; decides which counter a
    /// confirmed download feeds and which delivery kind is used.
    pub fn is_audio_only(&self) -> (r: bool)
        ensures
            r == (*self is AudioOnly),
    {
        matches!(self, Format::AudioOnly)
    }

    /// The video height handed to the engine when this format is chosen.
    pub fn video_height(&self) -> (r: u32)
        ensures
            r == spec_video_height(*self),
    {
        match self {
            Format::FullHD => 1080,
            Format::HD | Format::AudioOnly => 720,
            Format::LowRes => 480,
        }
    }

    /// The file extension the engine's output is stored under for this
    /// format.
    pub fn extension(&self) -> (r: &'static str)
        ensures
            r@ == spec_extension(*self),
    {
        match self {
            Format::AudioOnly => "mp3",
            Format::FullHD | Format::HD | Format::LowRes => "mp4",
        }
    }

    /// The button grid of the format prompt: one row per format, in the
    /// order they are shown.
    pub fn buttons() -> (r: Vec<Vec<Format>>)
        ensures
            r@.len() == 4,
            forall|i: int| 0 <= i < 4 ==> (#[trigger] r@[i])@.len() == 1,
            r@[0]@[0] == Format::FullHD,
            r@[1]@[0] == Format::HD,
            r@[2]@[0] == Format::LowRes,
            r@[3]@[0] == Format::AudioOnly,
    {
        let rows: Vec<Vec<Format>> = vec![
            vec![Format::FullHD],
            vec![Format::HD],
            vec![Format::LowRes],
            vec![Format::AudioOnly],
        ];
        rows
    }
}

/// What a successful engine download hands back: the media title and the
/// local path of the retrieved file.
pub struct DownloadedMedia {
    pub title: String,
    pub path: String,
}

} // verus!
