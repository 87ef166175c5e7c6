//! The gCloud adapter's computing side: shaping the synthesis request body,
//! decoding the audio the provider returns (base64 inside its JSON reply),
//! and turning raw catalog records into the "language variant" names the
//! voice catalog holds. The HTTP calls themselves happen outside this crate.

use vstd::prelude::*;
use crate::backend::AudioEncoding;
use crate::errors::Error;
use crate::text::find_char;
use crate::text::json_escape;
use crate::text::lemma_find_props;
use crate::text::spec_rate_display;
use crate::text::spec_find;
use crate::text::spec_json_escape;
use crate::text::str_eq;
use crate::text::rate_display;

verus! {

/// The synthesis request body sent to the provider, for a text, a language
/// code with its voice variant, a speaking rate (in hundredths of the
/// provider's multiplier, shown to it as the multiplier itself), and an
/// output encoding.
pub open spec fn spec_request_body(
    text: Seq<char>,
    language: Seq<char>,
    variant: Seq<char>,
    rate: u32,
    encoding: AudioEncoding,
) -> Seq<char> {
    "{\"input\":{\"text\":\""@ + spec_json_escape(text) + "\"},\"voice\":{\"languageCode\":\""@
        + spec_json_escape(language) + "\",\"name\":\""@ + spec_json_escape(language)
        + "-Standard-"@ + spec_json_escape(variant) + "\"},\"audioConfig\":{\"audioEncoding\":\""@
        + encoding.spec_as_str() + "\",\"speakingRate\":"@ + spec_rate_display(rate) + "}}"@
}

/// Builds the synthesis request body. The voice must be of the form
/// "language variant" (one space); anything else is rejected before any
/// network work.
pub fn request_body(text: &str, voice: &str, rate: u32, encoding: AudioEncoding) -> (r: Result<
    String,
    Error,
>)
    ensures
        match r {
            Ok(body) => spec_find(voice@, ' ', 0) != -1 && body@ == spec_request_body(
                text@,
                voice@.subrange(0, spec_find(voice@, ' ', 0)),
                voice@.subrange(spec_find(voice@, ' ', 0) + 1, voice@.len() as int),
                rate,
                encoding,
            ),
            Err(e) => spec_find(voice@, ' ', 0) == -1 && (e matches Error::UpstreamFailure(m)
                && m@ == voice@ + " cannot be parsed into lang and variant"@),
        },
{
    proof {
        lemma_find_props(voice@, ' ', 0);
    }
    let n = voice.unicode_len();
    let sp = match find_char(voice, ' ', 0) {
        Some(i) => i,
        None => {
            let mut m = String::from_str(voice);
            m.append(" cannot be parsed into lang and variant");
            return Err(Error::UpstreamFailure(m));
        },
    };
    let language = voice.substring_char(0, sp);
    let variant = voice.substring_char(sp + 1, n);
    let escaped_language = json_escape(language);
    let mut body = String::from_str("{\"input\":{\"text\":\"");
    let escaped_text = json_escape(text);
    body.append(escaped_text.as_str());
    body.append("\"},\"voice\":{\"languageCode\":\"");
    body.append(escaped_language.as_str());
    body.append("\",\"name\":\"");
    body.append(escaped_language.as_str());
    body.append("-Standard-");
    let escaped_variant = json_escape(variant);
    body.append(escaped_variant.as_str());
    body.append("\"},\"audioConfig\":{\"audioEncoding\":\"");
    body.append(encoding.as_str());
    body.append("\",\"speakingRate\":");
    let rendered_rate = rate_display(rate);
    body.append(rendered_rate.as_str());
    body.append("}}");
    Ok(body)
}

/// What a base64 text decodes to, if it decodes at all.
pub uninterp spec fn spec_base64_decode(s: Seq<char>) -> Option<Seq<u8>>;

/// Relies on base64's STANDARD engine: decoding is a function of the text
/// alone.
#[verifier::external_body]
fn base64_decode(s: &str) -> (r: Option<Vec<u8>>)
    ensures
        match r {
            Some(bytes) => spec_base64_decode(s@) == Some(bytes@),
            None => spec_base64_decode(s@) is None,
        },
{
    base64::Engine::decode(&base64::engine::general_purpose::STANDARD, s).ok()
}

/// Decodes the base64 audio content of a synthesis reply; a text that does
/// not decode is an upstream failure.
pub fn decode_audio_content(audio_content: &str) -> (r: Result<Vec<u8>, Error>)
    ensures
        match r {
            Ok(bytes) => spec_base64_decode(audio_content@) == Some(bytes@),
            Err(e) => spec_base64_decode(audio_content@) is None && e matches Error::UpstreamFailure(
                _,
            ),
        },
{
    match base64_decode(audio_content) {
        Some(bytes) => Ok(bytes),
        None => Err(Error::UpstreamFailure(String::from_str("invalid base64 audio content"))),
    }
}

/// The catalog name shown for a raw voice record: for a provider name of the
/// form "xx-XX-Standard-V" (split at its first two dashes, then once more),
/// the record's language followed by the variant; records of any other mode
/// or shape are dropped.
pub open spec fn spec_voice_label(name: Seq<char>, language: Seq<char>) -> Option<Seq<char>> {
    let d1 = spec_find(name, '-', 0);
    if d1 == -1 {
        None
    } else {
        let d2 = spec_find(name, '-', d1 + 1);
        if d2 == -1 {
            None
        } else {
            let d3 = spec_find(name, '-', d2 + 1);
            if d3 == -1 {
                None
            } else if name.subrange(d2 + 1, d3) == "Standard"@ {
                Some(language + " "@ + name.subrange(d3 + 1, name.len() as int))
            } else {
                None
            }
        }
    }
}

/// Shapes one raw catalog record into its catalog name, if it has one.
pub fn voice_label(name: &str, language: &str) -> (r: Option<String>)
    ensures
        match r {
            Some(label) => spec_voice_label(name@, language@) == Some(label@),
            None => spec_voice_label(name@, language@) is None,
        },
{
    proof {
        lemma_find_props(name@, '-', 0);
    }
    let n = name.unicode_len();
    let d1 = match find_char(name, '-', 0) {
        Some(i) => i,
        None => return None,
    };
    proof {
        lemma_find_props(name@, '-', d1 + 1);
    }
    let d2 = match find_char(name, '-', d1 + 1) {
        Some(i) => i,
        None => return None,
    };
    proof {
        lemma_find_props(name@, '-', d2 + 1);
    }
    let d3 = match find_char(name, '-', d2 + 1) {
        Some(i) => i,
        None => return None,
    };
    let mode = name.substring_char(d2 + 1, d3);
    if !str_eq(mode, "Standard") {
        return None;
    }
    let variant = name.substring_char(d3 + 1, n);
    let mut label = String::from_str(language);
    label.append(" ");
    label.append(variant);
    Some(label)
}

} // verus!
