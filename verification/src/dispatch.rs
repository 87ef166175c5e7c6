//! The gateway dispatcher: validates a synthesis request against the chosen
//! backend's constraints, then — after any requested translation has been
//! substituted into the text — computes the cache fingerprint and serves
//! from cache when it can, writing a backend's fresh result back to the
//! cache otherwise. Within one request, validation strictly precedes the
//! cache lookup, which strictly precedes backend invocation, which strictly
//! precedes cache insertion.
//!
//! Translation is I/O and happens between `validate` and `consult_cache`,
//! outside this crate; `validate` says when it must run, and the
//! substituted request is what gets fingerprinted, as the translation
//! collaborator's contract asks.

use vstd::prelude::*;
use crate::backend::spec_length_ok;
use crate::backend::spec_rate_ok;
use crate::backend::TTSMode;
use crate::cache::clone_bytes;
use crate::cache::lemma_cache_round_trip;
use crate::cache::spec_contains_key;
use crate::cache::spec_insert;
use crate::cache::spec_lookup;
use crate::cache::spec_touch;
use crate::cache::spec_unique_keys;
use crate::cache::AudioCache;
use crate::cache::CacheEntry;
use crate::cache::CacheModel;
use crate::cache::EntryModel;
use crate::catalog::VoiceCatalog;
use crate::digest::spec_opt_str;
use crate::digest::SynthesisRequest;
use crate::errors::Error;
use crate::text::str_eq;

verus! {

/// A soft internal deadline: the elapsed time is measured by whoever owns
/// the clock, and a missed deadline is worth one warning per request.
#[derive(Debug)]
pub struct DeadlineMonitor {
    pub started_at: u64,
    pub expected: u64,
}

impl DeadlineMonitor {
    /// Starts watching a deadline of `expected` milliseconds at instant
    /// `started_at`.
    pub fn new(expected: u64, started_at: u64) -> (r: DeadlineMonitor)
        ensures
            r.expected == expected,
            r.started_at == started_at,
    {
        DeadlineMonitor { started_at, expected }
    }

    /// Whether finishing at `now` deserves a warning: the deadline was
    /// missed, no other deadline of this request warned already, and the
    /// clock did not go backwards.
    pub fn should_warn(&self, now: u64, any_deadline_hit: bool) -> (r: bool)
        ensures
            r == (now >= self.started_at && now - self.started_at > self.expected
                && !any_deadline_hit),
    {
        !any_deadline_hit && now >= self.started_at && now - self.started_at > self.expected
    }
}

/// What a cache miss leaves to do: invoke the backend and store the result
/// under `key`.
#[derive(Debug)]
pub struct SynthesisJob {
    pub key: Vec<u8>,
}

/// What the cache had to say about a request.
#[derive(Debug)]
pub enum CacheDecision {
    /// The cache already holds the audio.
    Hit(CacheEntry),
    /// It does not: synthesize, then call `complete`.
    Miss(SynthesisJob),
}

/// Whether the request's credential satisfies the configured key: a gateway
/// without a key accepts everyone.
pub open spec fn spec_auth_ok(key: Option<Seq<char>>, header: Option<Seq<char>>) -> bool {
    match key {
        None => true,
        Some(k) => match header {
            Some(h) => h == k,
            None => false,
        },
    }
}

/// The gateway dispatcher: the audio cache it owns, the optional shared
/// secret callers must present, and whether the translation collaborator is
/// configured.
#[derive(Debug)]
pub struct Dispatcher {
    pub cache: AudioCache,
    pub auth_key: Option<String>,
    pub translation_enabled: bool,
}

impl Dispatcher {
    /// A dispatcher over an empty cache.
    pub fn new(cache_capacity: usize, auth_key: Option<String>, translation_enabled: bool) -> (r:
        Dispatcher)
        requires
            cache_capacity >= 1,
        ensures
            r.cache.wf(),
            r.cache.spec_model() == Seq::<(Seq<u8>, EntryModel)>::empty(),
            r.cache.spec_capacity() == cache_capacity,
            spec_opt_str(r.auth_key) == spec_opt_str(auth_key),
            r.translation_enabled == translation_enabled,
    {
        Dispatcher { cache: AudioCache::new(cache_capacity), auth_key, translation_enabled }
    }

    /// The checks that precede any remote work at all — the credential and
    /// the speaking rate — so a caller can refuse a request before even
    /// fetching a provider's voice catalog. `validate` repeats both; the two
    /// agree on every input.
    pub fn authorize(&self, req: &SynthesisRequest, auth_header: Option<&String>) -> (r: Result<
        (),
        Error,
    >)
        ensures
            ({
                let auth_ok = spec_auth_ok(
                    spec_opt_str(self.auth_key),
                    match auth_header {
                        Some(h) => Some(h@),
                        None => None,
                    },
                );
                let rate_ok = spec_rate_ok(req.mode, req.speaking_rate);
                match r {
                    Ok(_) => auth_ok && rate_ok,
                    Err(e) => match e {
                        Error::Unauthorized => !auth_ok,
                        Error::InvalidSpeakingRate(x) => auth_ok && !rate_ok && req.speaking_rate
                            == Some(x),
                        _ => false,
                    },
                }
            }),
    {
        let auth_ok = match (&self.auth_key, auth_header) {
            (None, _) => true,
            (Some(key), Some(header)) => str_eq(header.as_str(), key.as_str()),
            (Some(_), None) => false,
        };
        if !auth_ok {
            return Err(Error::Unauthorized);
        }
        if let Err(e) = req.mode.check_speaking_rate(req.speaking_rate) {
            return Err(e);
        }
        Ok(())
    }

    /// Validates the request before any backend, cache or translation work,
    /// in the fixed order: credential, speaking rate, voice, then — when a
    /// translation target is named — that the collaborator is configured.
    /// `Ok(translate)` says whether translation must now run and be
    /// substituted into the text before fingerprinting.
    pub fn validate(
        &self,
        req: &SynthesisRequest,
        auth_header: Option<&String>,
        catalog: &VoiceCatalog,
    ) -> (r: Result<bool, Error>)
        ensures
            ({
                let auth_ok = spec_auth_ok(
                    spec_opt_str(self.auth_key),
                    match auth_header {
                        Some(h) => Some(h@),
                        None => None,
                    },
                );
                let rate_ok = spec_rate_ok(req.mode, req.speaking_rate);
                let voice_ok = catalog.spec_has_voice(req.voice@);
                let wants_translation = req.translation_lang is Some;
                match r {
                    Ok(translate) => auth_ok && rate_ok && voice_ok && (wants_translation
                        ==> self.translation_enabled) && translate == wants_translation,
                    Err(e) => match e {
                        Error::Unauthorized => !auth_ok,
                        Error::InvalidSpeakingRate(x) => auth_ok && !rate_ok && req.speaking_rate
                            == Some(x),
                        Error::UnknownVoice(v) => auth_ok && rate_ok && !voice_ok && v@
                            == req.voice@,
                        Error::TranslationDisabled => auth_ok && rate_ok && voice_ok
                            && wants_translation && !self.translation_enabled,
                        _ => false,
                    },
                }
            }),
    {
        let auth_ok = match (&self.auth_key, auth_header) {
            (None, _) => true,
            (Some(key), Some(header)) => str_eq(header.as_str(), key.as_str()),
            (Some(_), None) => false,
        };
        if !auth_ok {
            return Err(Error::Unauthorized);
        }
        if let Err(e) = req.mode.check_speaking_rate(req.speaking_rate) {
            return Err(e);
        }
        if !catalog.check_voice(req.voice.as_str()) {
            return Err(Error::UnknownVoice(req.voice.clone()));
        }
        let wants_translation = req.translation_lang.is_some();
        if wants_translation && !self.translation_enabled {
            return Err(Error::TranslationDisabled);
        }
        Ok(wants_translation)
    }

    /// Computes the fingerprint of the (translation-substituted) request and
    /// consults the cache: a hit hands the stored entry out (refreshing its
    /// recency), a miss hands back the key to synthesize under.
    pub fn consult_cache(&mut self, req: &SynthesisRequest) -> (r: CacheDecision)
        requires
            old(self).cache.wf(),
        ensures
            final(self).cache.wf(),
            final(self).cache.spec_capacity() == old(self).cache.spec_capacity(),
            final(self).auth_key == old(self).auth_key,
            final(self).translation_enabled == old(self).translation_enabled,
            match r {
                CacheDecision::Hit(entry) => spec_lookup(
                    old(self).cache.spec_model(),
                    req.spec_fingerprint(),
                ) == Some(entry@) && final(self).cache.spec_model() == spec_touch(
                    old(self).cache.spec_model(),
                    req.spec_fingerprint(),
                ),
                CacheDecision::Miss(job) => !spec_contains_key(
                    old(self).cache.spec_model(),
                    req.spec_fingerprint(),
                ) && job.key@ == req.spec_fingerprint() && final(self).cache.spec_model() == old(
                    self,
                ).cache.spec_model(),
            },
    {
        let fp = req.fingerprint();
        match self.cache.lookup(&fp) {
            Some(entry) => CacheDecision::Hit(entry),
            None => CacheDecision::Miss(SynthesisJob { key: fp }),
        }
    }

    /// Takes a backend's freshly synthesized audio: stores it in the cache
    /// under the job's key (always — even audio that then fails the length
    /// check stays cached), length-checks it, and hands back the audio with
    /// its final content type, the backend's default when the provider named
    /// none. `decoded_seconds` is the caller's MP3 decode of the audio,
    /// where the mode's length check needs one.
    pub fn complete(
        &mut self,
        mode: TTSMode,
        key: Vec<u8>,
        audio: Vec<u8>,
        content_type: Option<String>,
        max_length: Option<u64>,
        decoded_seconds: Option<u64>,
    ) -> (r: Result<(Vec<u8>, String), Error>)
        requires
            old(self).cache.wf(),
        ensures
            final(self).cache.wf(),
            final(self).cache.spec_capacity() == old(self).cache.spec_capacity(),
            final(self).auth_key == old(self).auth_key,
            final(self).translation_enabled == old(self).translation_enabled,
            final(self).cache.spec_model() == spec_insert(
                old(self).cache.spec_model(),
                old(self).cache.spec_capacity(),
                key@,
                EntryModel { audio: audio@, content_type: spec_opt_str(content_type) },
            ),
            match r {
                Ok(response) => response.0@ == audio@ && spec_length_ok(
                    mode,
                    audio@,
                    max_length,
                    decoded_seconds,
                ) && response.1@ == (match content_type {
                    Some(c) => c@,
                    None => mode.spec_default_content_type(),
                }),
                Err(e) => e == Error::AudioTooLong && !spec_length_ok(
                    mode,
                    audio@,
                    max_length,
                    decoded_seconds,
                ),
            },
    {
        let stored_tag = match &content_type {
            Some(s) => Some(s.clone()),
            None => None,
        };
        let entry = CacheEntry::new(clone_bytes(&audio), stored_tag);
        self.cache.insert(key, entry);
        match mode.check_length(&audio, max_length, decoded_seconds) {
            Err(e) => Err(e),
            Ok(_) => {
                let tag = match content_type {
                    Some(c) => c,
                    None => String::from_str(mode.default_content_type()),
                };
                Ok((audio, tag))
            },
        }
    }
}

/// Serves a cache hit: the entry's audio passes the mode's length check or
/// the request fails with the length error — an overlong cached entry is
/// never served. The content type is the stored tag, the backend's default
/// when none was stored. `decoded_seconds` as in `complete`.
pub fn serve_entry(
    mode: TTSMode,
    entry: CacheEntry,
    max_length: Option<u64>,
    decoded_seconds: Option<u64>,
) -> (r: Result<(Vec<u8>, String), Error>)
    ensures
        match r {
            Ok(response) => response.0@ == entry@.audio && spec_length_ok(
                mode,
                entry@.audio,
                max_length,
                decoded_seconds,
            ) && response.1@ == (match entry@.content_type {
                Some(c) => c,
                None => mode.spec_default_content_type(),
            }),
            Err(e) => e == Error::AudioTooLong && !spec_length_ok(
                mode,
                entry@.audio,
                max_length,
                decoded_seconds,
            ),
        },
{
    match mode.check_length(&entry.audio, max_length, decoded_seconds) {
        Err(e) => Err(e),
        Ok(_) => {
            let tag = match entry.content_type {
                Some(c) => c,
                None => String::from_str(mode.default_content_type()),
            };
            Ok((entry.audio, tag))
        },
    }
}

/// Cache short-circuit: once one request's synthesized audio is inserted
/// under its fingerprint, any request with the same fields finds it in the
/// cache — the dispatcher serves the identical bytes without invoking a
/// backend again.
pub proof fn lemma_cache_short_circuit(
    m: CacheModel,
    capacity: int,
    first: SynthesisRequest,
    second: SynthesisRequest,
    e: EntryModel,
)
    requires
        spec_unique_keys(m),
        capacity >= 1,
        first.text@ == second.text@,
        first.voice@ == second.voice@,
        first.mode == second.mode,
        first.speaking_rate == second.speaking_rate,
        spec_opt_str(first.preferred_format) == spec_opt_str(second.preferred_format),
        spec_opt_str(first.translation_lang) == spec_opt_str(second.translation_lang),
    ensures
        spec_lookup(
            spec_insert(m, capacity, first.spec_fingerprint(), e),
            second.spec_fingerprint(),
        ) == Some(e),
{
    crate::digest::lemma_fingerprint_deterministic(first, second);
    lemma_cache_round_trip(m, capacity, first.spec_fingerprint(), e);
}

} // verus!
