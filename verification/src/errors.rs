//! The gateway's error taxonomy: caller-input errors are detected before any
//! backend work, upstream failures carry an opaque detail message. Each error
//! has a stable machine-readable code, an HTTP status class, and a
//! human-readable message.

use vstd::prelude::*;
use crate::text::rate_display;
use crate::text::spec_rate_display;

verus! {

/// Everything the dispatcher can fail with.
#[derive(Debug)]
pub enum Error {
    /// The requested voice is not in the backend's catalog.
    UnknownVoice(String),
    /// The requested speaking rate (in hundredths of the backend's unit) is
    /// above the backend's maximum.
    InvalidSpeakingRate(u32),
    /// The synthesized (or cached) audio is longer than the caller allows.
    AudioTooLong,
    /// Translation was requested but no translation key is configured.
    TranslationDisabled,
    /// The request's credential did not match the configured key.
    Unauthorized,
    /// A backend, network, or subprocess failure; the detail is logged, not
    /// interpreted.
    UpstreamFailure(String),
}

impl Error {
    /// The stable machine-readable code of each variant.
    pub open spec fn spec_code(&self) -> u8 {
        match self {
            Error::TranslationDisabled => 5,
            Error::Unauthorized => 4,
            Error::InvalidSpeakingRate(_) => 3,
            Error::AudioTooLong => 2,
            Error::UnknownVoice(_) => 1,
            Error::UpstreamFailure(_) => 0,
        }
    }

    pub fn code(&self) -> (r: u8)
        ensures
            r == self.spec_code(),
    {
        match self {
            Error::TranslationDisabled => 5,
            Error::Unauthorized => 4,
            Error::InvalidSpeakingRate(_) => 3,
            Error::AudioTooLong => 2,
            Error::UnknownVoice(_) => 1,
            Error::UpstreamFailure(_) => 0,
        }
    }

    /// The HTTP status class: 400 for caller-input errors, 403 for a failed
    /// credential, 500 for anything upstream.
    pub open spec fn spec_status(&self) -> u16 {
        match self {
            Error::Unauthorized => 403,
            Error::UpstreamFailure(_) => 500,
            _ => 400,
        }
    }

    pub fn status(&self) -> (r: u16)
        ensures
            r == self.spec_status(),
    {
        match self {
            Error::Unauthorized => 403,
            Error::UpstreamFailure(_) => 500,
            _ => 400,
        }
    }

    /// The human-readable message of each variant.
    pub open spec fn spec_message(&self) -> Seq<char> {
        match self {
            Error::UnknownVoice(voice) => "Unknown voice: "@ + voice@,
            Error::InvalidSpeakingRate(rate) => "Invalid speaking rate: "@ + spec_rate_display(
                *rate,
            ),
            Error::AudioTooLong => "Max length exceeded!"@,
            Error::TranslationDisabled => "Translation requested but no key has been provided"@,
            Error::Unauthorized => "Unauthorized request"@,
            Error::UpstreamFailure(detail) => "Unknown error: "@ + detail@,
        }
    }

    pub fn message(&self) -> (r: String)
        ensures
            r@ == self.spec_message(),
    {
        match self {
            Error::UnknownVoice(voice) => {
                let mut s = String::from_str("Unknown voice: ");
                s.append(voice.as_str());
                s
            },
            Error::InvalidSpeakingRate(rate) => {
                let mut s = String::from_str("Invalid speaking rate: ");
                let rendered = rate_display(*rate);
                s.append(rendered.as_str());
                s
            },
            Error::AudioTooLong => String::from_str("Max length exceeded!"),
            Error::TranslationDisabled => String::from_str(
                "Translation requested but no key has been provided",
            ),
            Error::Unauthorized => String::from_str("Unauthorized request"),
            Error::UpstreamFailure(detail) => {
                let mut s = String::from_str("Unknown error: ");
                s.append(detail.as_str());
                s
            },
        }
    }
}

} // verus!
