//! The decision side of the translation collaborator: the HTTP call happens
//! outside this crate; what is decided here is the authorization header it
//! is made with and whether the translated text replaces the request's text.

use vstd::prelude::*;
use crate::text::str_eq;

verus! {

/// The authorization header for the translation provider.
pub fn auth_header(token: &str) -> (r: String)
    ensures
        r@ == "DeepL-Auth-Key "@ + token@,
{
    let mut s = String::from_str("DeepL-Auth-Key ");
    s.append(token);
    s
}

/// What the translation provider answered: the translated text, and the
/// source language it detected.
#[derive(Debug)]
pub struct Translation {
    pub text: String,
    pub detected_source_language: String,
}

/// Picks the text to synthesize: the translation replaces the original text
/// exactly when the provider answered and detected a source language other
/// than the target.
pub fn select_translation(translation: Option<Translation>, target_lang: &str) -> (r: Option<
    String,
>)
    ensures
        match r {
            Some(text) => match translation {
                Some(t) => text@ == t.text@ && t.detected_source_language@ != target_lang@,
                None => false,
            },
            None => match translation {
                Some(t) => t.detected_source_language@ == target_lang@,
                None => true,
            },
        },
{
    match translation {
        Some(t) => {
            if !str_eq(t.detected_source_language.as_str(), target_lang) {
                Some(t.text)
            } else {
                None
            }
        },
        None => None,
    }
}

} // verus!
