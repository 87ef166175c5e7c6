//! The backend dispatch contract: the four synthesis modes, their speaking
//! rate bounds, their content types, their audio-length checks, and the
//! gCloud output-encoding and Polly output-format selections.

use vstd::prelude::*;
use crate::errors::Error;
use crate::text::eq_ignore_ascii_case;
use crate::text::spec_eq_ignore_ascii_case;
use crate::text::str_eq;
use crate::wav;

verus! {

/// The four synthesis backends.
#[allow(non_camel_case_types)]
#[derive(Clone, Copy, Debug, PartialEq, Eq, Structural)]
pub enum TTSMode {
    gTTS,
    Polly,
    eSpeak,
    gCloud,
}

/// Whether an MP3 payload's decoded duration is under `max_seconds`.
/// `decoded_seconds` is the payload's duration in whole seconds where the
/// caller decoded it, and `None` where the decode failed or was not run —
/// an undecodable payload is given the benefit of the doubt. The decode
/// itself happens outside this crate: the MP3 decoder can abort on crafted
/// frame headers, so no verified function runs it; the check here holds for
/// every value it can produce.
pub open spec fn spec_mp3_length_ok(decoded_seconds: Option<u64>, max_seconds: u64) -> bool {
    match decoded_seconds {
        Some(secs) => secs < max_seconds,
        None => true,
    }
}

pub fn check_mp3_length(decoded_seconds: Option<u64>, max_length: u64) -> (r: bool)
    ensures
        r == spec_mp3_length_ok(decoded_seconds, max_length),
{
    match decoded_seconds {
        Some(secs) => secs < max_length,
        None => true,
    }
}

/// Whether `rate` is acceptable to `mode`: absent rates and unconstrained
/// modes always are. Rates are in hundredths of the backend's own unit, so
/// fractional rates (a gCloud multiplier of 1.5, say) are ordinary values.
pub open spec fn spec_rate_ok(mode: TTSMode, rate: Option<u32>) -> bool {
    match rate {
        None => true,
        Some(r) => match mode.spec_max_speaking_rate() {
            None => true,
            Some(max) => r <= max,
        },
    }
}

/// Whether `audio` passes `mode`'s length check against an optional caller
/// maximum. `decoded_seconds` is the caller's MP3 decode of `audio` (used
/// by the gTTS arm alone, see `spec_mp3_length_ok`); the local pipeline's
/// arm reads the WAV header fields of the bytes themselves.
pub open spec fn spec_length_ok(
    mode: TTSMode,
    audio: Seq<u8>,
    max_length: Option<u64>,
    decoded_seconds: Option<u64>,
) -> bool {
    match max_length {
        None => true,
        Some(max) => match mode {
            TTSMode::gTTS => spec_mp3_length_ok(decoded_seconds, max),
            TTSMode::eSpeak => wav::spec_wav_length_ok(audio, (max as u32) as int),
            TTSMode::gCloud => true,
            TTSMode::Polly => true,
        },
    }
}

impl TTSMode {
    pub open spec fn spec_str(self) -> Seq<char> {
        match self {
            TTSMode::gTTS => "gTTS"@,
            TTSMode::Polly => "Polly"@,
            TTSMode::eSpeak => "eSpeak"@,
            TTSMode::gCloud => "gCloud"@,
        }
    }

    /// The mode's name, as it appears in cache keys and listings.
    pub fn as_str(self) -> (r: &'static str)
        ensures
            r@ == self.spec_str(),
    {
        match self {
            TTSMode::gTTS => "gTTS",
            TTSMode::Polly => "Polly",
            TTSMode::eSpeak => "eSpeak",
            TTSMode::gCloud => "gCloud",
        }
    }

    pub open spec fn spec_max_speaking_rate(self) -> Option<u32> {
        match self {
            TTSMode::gTTS => None,
            TTSMode::Polly => Some(50000u32),
            TTSMode::eSpeak => Some(40000u32),
            TTSMode::gCloud => Some(400u32),
        }
    }

    /// The highest speaking rate the mode accepts, in hundredths of its own
    /// unit (a percentage cap of 500 for Polly, 400 words per minute for
    /// the local pipeline, a multiplier of 4 for gCloud); `None` means
    /// unconstrained.
    pub fn max_speaking_rate(self) -> (r: Option<u32>)
        ensures
            r == self.spec_max_speaking_rate(),
    {
        match self {
            TTSMode::gTTS => None,
            TTSMode::Polly => Some(50000),
            TTSMode::eSpeak => Some(40000),
            TTSMode::gCloud => Some(400),
        }
    }

    /// Rejects a speaking rate above the mode's maximum, before any backend
    /// work is done.
    pub fn check_speaking_rate(self, speaking_rate: Option<u32>) -> (r: Result<(), Error>)
        ensures
            match r {
                Ok(_) => spec_rate_ok(self, speaking_rate),
                Err(e) => match speaking_rate {
                    Some(rate) => !spec_rate_ok(self, speaking_rate) && e
                        == Error::InvalidSpeakingRate(rate),
                    None => false,
                },
            },
    {
        if let Some(rate) = speaking_rate {
            if let Some(max) = self.max_speaking_rate() {
                if rate > max {
                    return Err(Error::InvalidSpeakingRate(rate));
                }
            }
        }
        Ok(())
    }

    /// The mode's audio-length check: WAV header arithmetic for the local
    /// pipeline, the caller-supplied MP3 decode for gTTS, trivially true
    /// where the encoding makes estimation impractical.
    pub fn check_length(
        self,
        audio: &Vec<u8>,
        max_length: Option<u64>,
        decoded_seconds: Option<u64>,
    ) -> (r: Result<(), Error>)
        ensures
            match r {
                Ok(_) => spec_length_ok(self, audio@, max_length, decoded_seconds),
                Err(e) => !spec_length_ok(self, audio@, max_length, decoded_seconds) && e
                    == Error::AudioTooLong,
            },
    {
        let ok = match max_length {
            None => true,
            Some(max) => match self {
                TTSMode::gTTS => check_mp3_length(decoded_seconds, max),
                TTSMode::eSpeak => wav::check_length(audio, #[verifier::truncate] (max as u32)),
                TTSMode::gCloud => true,
                TTSMode::Polly => true,
            },
        };
        if ok {
            Ok(())
        } else {
            Err(Error::AudioTooLong)
        }
    }

    pub open spec fn spec_default_content_type(self) -> Seq<char> {
        match self {
            TTSMode::gTTS => "audio/mpeg"@,
            TTSMode::eSpeak => "audio/wav"@,
            TTSMode::gCloud => "audio/opus"@,
            TTSMode::Polly => "audio/ogg"@,
        }
    }

    /// The content type reported when the backend supplies none.
    pub fn default_content_type(self) -> (r: &'static str)
        ensures
            r@ == self.spec_default_content_type(),
    {
        match self {
            TTSMode::gTTS => "audio/mpeg",
            TTSMode::eSpeak => "audio/wav",
            TTSMode::gCloud => "audio/opus",
            TTSMode::Polly => "audio/ogg",
        }
    }
}

/// The audio encodings the gCloud backend can ask for.
#[allow(non_camel_case_types)]
#[derive(Clone, Copy, Debug, PartialEq, Eq, Structural)]
pub enum AudioEncoding {
    LINEAR16,
    OGG_OPUS,
    MULAW,
    ALAW,
    MP3,
}

/// The encoding whose canonical (upper-case) name is `s`, if any.
pub open spec fn spec_encoding_from_str(s: Seq<char>) -> Option<AudioEncoding> {
    if s == "LINEAR16"@ {
        Some(AudioEncoding::LINEAR16)
    } else if s == "OGG_OPUS"@ {
        Some(AudioEncoding::OGG_OPUS)
    } else if s == "MULAW"@ {
        Some(AudioEncoding::MULAW)
    } else if s == "ALAW"@ {
        Some(AudioEncoding::ALAW)
    } else if s == "MP3"@ {
        Some(AudioEncoding::MP3)
    } else {
        None
    }
}

/// The encoding a caller asked for with `preferred`, compared up to ASCII
/// case; OGG_OPUS when nothing (or nothing recognized) was asked for.
pub open spec fn spec_encoding_preference(preferred: Option<Seq<char>>) -> AudioEncoding {
    match preferred {
        None => AudioEncoding::OGG_OPUS,
        Some(s) => {
            if spec_eq_ignore_ascii_case(s, "LINEAR16"@) {
                AudioEncoding::LINEAR16
            } else if spec_eq_ignore_ascii_case(s, "OGG_OPUS"@) {
                AudioEncoding::OGG_OPUS
            } else if spec_eq_ignore_ascii_case(s, "MULAW"@) {
                AudioEncoding::MULAW
            } else if spec_eq_ignore_ascii_case(s, "ALAW"@) {
                AudioEncoding::ALAW
            } else if spec_eq_ignore_ascii_case(s, "MP3"@) {
                AudioEncoding::MP3
            } else {
                AudioEncoding::OGG_OPUS
            }
        },
    }
}

impl AudioEncoding {
    /// Parses a canonical encoding name.
    pub fn from_str(s: &str) -> (r: Option<AudioEncoding>)
        ensures
            r == spec_encoding_from_str(s@),
    {
        if str_eq(s, "LINEAR16") {
            Some(AudioEncoding::LINEAR16)
        } else if str_eq(s, "OGG_OPUS") {
            Some(AudioEncoding::OGG_OPUS)
        } else if str_eq(s, "MULAW") {
            Some(AudioEncoding::MULAW)
        } else if str_eq(s, "ALAW") {
            Some(AudioEncoding::ALAW)
        } else if str_eq(s, "MP3") {
            Some(AudioEncoding::MP3)
        } else {
            None
        }
    }

    pub open spec fn spec_as_str(self) -> Seq<char> {
        match self {
            AudioEncoding::LINEAR16 => "LINEAR16"@,
            AudioEncoding::OGG_OPUS => "OGG_OPUS"@,
            AudioEncoding::MULAW => "MULAW"@,
            AudioEncoding::ALAW => "ALAW"@,
            AudioEncoding::MP3 => "MP3"@,
        }
    }

    pub fn as_str(self) -> (r: &'static str)
        ensures
            r@ == self.spec_as_str(),
    {
        match self {
            AudioEncoding::LINEAR16 => "LINEAR16",
            AudioEncoding::OGG_OPUS => "OGG_OPUS",
            AudioEncoding::MULAW => "MULAW",
            AudioEncoding::ALAW => "ALAW",
            AudioEncoding::MP3 => "MP3",
        }
    }

    pub open spec fn spec_content_type(self) -> Seq<char> {
        match self {
            AudioEncoding::LINEAR16 => "audio/wav"@,
            AudioEncoding::ALAW => "audio/wav"@,
            AudioEncoding::MULAW => "audio/wav"@,
            AudioEncoding::OGG_OPUS => "audio/opus"@,
            AudioEncoding::MP3 => "audio/mpeg"@,
        }
    }

    /// The content type reported for audio in this encoding.
    pub fn content_type(self) -> (r: &'static str)
        ensures
            r@ == self.spec_content_type(),
    {
        match self {
            AudioEncoding::LINEAR16 => "audio/wav",
            AudioEncoding::ALAW => "audio/wav",
            AudioEncoding::MULAW => "audio/wav",
            AudioEncoding::OGG_OPUS => "audio/opus",
            AudioEncoding::MP3 => "audio/mpeg",
        }
    }

    /// The encoding a caller asked for, compared up to ASCII case; OGG_OPUS
    /// by default.
    pub fn preference(preferred: Option<&String>) -> (r: AudioEncoding)
        ensures
            r == spec_encoding_preference(
                match preferred {
                    Some(s) => Some(s@),
                    None => None,
                },
            ),
    {
        match preferred {
            None => AudioEncoding::OGG_OPUS,
            Some(s) => {
                if eq_ignore_ascii_case(s.as_str(), "LINEAR16") {
                    AudioEncoding::LINEAR16
                } else if eq_ignore_ascii_case(s.as_str(), "OGG_OPUS") {
                    AudioEncoding::OGG_OPUS
                } else if eq_ignore_ascii_case(s.as_str(), "MULAW") {
                    AudioEncoding::MULAW
                } else if eq_ignore_ascii_case(s.as_str(), "ALAW") {
                    AudioEncoding::ALAW
                } else if eq_ignore_ascii_case(s.as_str(), "MP3") {
                    AudioEncoding::MP3
                } else {
                    AudioEncoding::OGG_OPUS
                }
            },
        }
    }
}

/// The SSML document sent to Polly when a speaking rate is requested: the
/// text wrapped in a prosody element carrying the rate (given in hundredths
/// of a percent) as a percentage. Without a rate the text is sent plain,
/// and no SSML is built.
pub open spec fn spec_polly_ssml(text: Seq<char>, rate: u32) -> Seq<char> {
    "<speak><prosody rate=\""@ + crate::text::spec_rate_display(rate) + "%\">"@ + text
        + "</prosody></speak>"@
}

/// Wraps `text` in the prosody SSML for `rate`.
pub fn polly_ssml(text: &str, rate: u32) -> (r: String)
    ensures
        r@ == spec_polly_ssml(text@, rate),
{
    let mut s = String::from_str("<speak><prosody rate=\"");
    let rendered = crate::text::rate_display(rate);
    s.append(rendered.as_str());
    s.append("%\">");
    s.append(text);
    s.append("</prosody></speak>");
    s
}

/// The output formats the Polly backend can ask for.
#[derive(Clone, Copy, Debug, PartialEq, Eq, Structural)]
pub enum PollyFormat {
    Mp3,
    Pcm,
    OggVorbis,
}

/// The Polly output format a caller asked for with `preferred`, compared up
/// to ASCII case; Ogg Vorbis when nothing (or nothing recognized) was asked
/// for.
pub open spec fn spec_polly_format(preferred: Option<Seq<char>>) -> PollyFormat {
    match preferred {
        None => PollyFormat::OggVorbis,
        Some(s) => {
            if spec_eq_ignore_ascii_case(s, "mp3"@) {
                PollyFormat::Mp3
            } else if spec_eq_ignore_ascii_case(s, "pcm"@) {
                PollyFormat::Pcm
            } else {
                PollyFormat::OggVorbis
            }
        },
    }
}

impl PollyFormat {
    pub fn preference(preferred: Option<&String>) -> (r: PollyFormat)
        ensures
            r == spec_polly_format(
                match preferred {
                    Some(s) => Some(s@),
                    None => None,
                },
            ),
    {
        match preferred {
            None => PollyFormat::OggVorbis,
            Some(s) => {
                if eq_ignore_ascii_case(s.as_str(), "mp3") {
                    PollyFormat::Mp3
                } else if eq_ignore_ascii_case(s.as_str(), "pcm") {
                    PollyFormat::Pcm
                } else {
                    PollyFormat::OggVorbis
                }
            },
        }
    }

    pub open spec fn spec_as_str(self) -> Seq<char> {
        match self {
            PollyFormat::Mp3 => "mp3"@,
            PollyFormat::Pcm => "pcm"@,
            PollyFormat::OggVorbis => "ogg_vorbis"@,
        }
    }


    /// The format's wire name.
    pub fn as_str(self) -> (r: &'static str)
        ensures
            r@ == self.spec_as_str(),
    {
        match self {
            PollyFormat::Mp3 => "mp3",
            PollyFormat::Pcm => "pcm",
            PollyFormat::OggVorbis => "ogg_vorbis",
        }
    }
}

} // verus!
