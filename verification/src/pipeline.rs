//! The local synthesis pipeline's decision logic. The two chained
//! subprocesses (phoneme generation piped into waveform rendering) run
//! outside this crate; what is decided here is which subprocess arguments
//! are used, which stderr lines are benign, whether a produced payload is
//! accepted, retried as a known transient corruption, or rejected, and how
//! an accepted payload's WAV header is repaired.

use vstd::prelude::*;
use vstd::string::StringSliceAdditionalSpecFns;
use crate::text::contains_sub;
use crate::text::spec_contains;

verus! {

/// The ceiling on whole-pipeline retries after transient corruption: the
/// retry is by design unbounded in spirit, but a permanently corrupting
/// synthesizer must not loop forever, so attempts are capped and the last
/// failure becomes terminal.
pub const MAX_PIPELINE_ATTEMPTS: u64 = 8;

/// The phoneme process's stderr marker of the known transient corruption:
/// its presence beside a bare-header payload asks for a whole-pipeline
/// retry.
pub open spec fn spec_transient_marker() -> Seq<u8> {
    "mbrowrap error: unable to get .wav header from mbrola".spec_bytes()
}

/// The waveform process's known benign warning: stderr lines holding it are
/// suppressed; all others are surfaced as operational warnings.
pub open spec fn spec_benign_marker() -> Seq<u8> {
    "unknown, replaced with".spec_bytes()
}

/// Whether a waveform-process stderr line is the known benign warning.
pub fn is_benign_warning(line: &Vec<u8>) -> (r: bool)
    ensures
        r == spec_contains(line@, spec_benign_marker()),
{
    contains_sub(line.as_slice(), "unknown, replaced with".as_bytes())
}

/// What to do with one pipeline run's output.
#[derive(Clone, Copy, Debug, PartialEq, Eq, Structural)]
pub enum PipelineVerdict {
    /// A non-empty payload: repair its header and use it.
    Accept,
    /// A bare-header payload beside the transient marker: run the whole
    /// pipeline again.
    Retry,
    /// Anything else: a hard failure.
    Corrupt,
}

/// The verdict on a payload of `payload_len` bytes whose phoneme process
/// wrote `phoneme_stderr`: exactly a bare header with the transient marker
/// is retried, exactly a bare header without it is corrupt, anything
/// shorter than a header (or too long for its header's size fields) is
/// corrupt, and everything else is accepted.
pub open spec fn spec_assess(payload_len: int, phoneme_stderr: Seq<u8>) -> PipelineVerdict {
    if payload_len == 44 {
        if spec_contains(phoneme_stderr, spec_transient_marker()) {
            PipelineVerdict::Retry
        } else {
            PipelineVerdict::Corrupt
        }
    } else if payload_len < 44 || payload_len > u32::MAX {
        PipelineVerdict::Corrupt
    } else {
        PipelineVerdict::Accept
    }
}

/// Judges one pipeline run.
pub fn assess_output(payload_len: usize, phoneme_stderr: &Vec<u8>) -> (r: PipelineVerdict)
    ensures
        r == spec_assess(payload_len as int, phoneme_stderr@),
        r == PipelineVerdict::Accept ==> 44 < payload_len <= u32::MAX,
{
    if payload_len == 44 {
        if contains_sub(
            phoneme_stderr.as_slice(),
            "mbrowrap error: unable to get .wav header from mbrola".as_bytes(),
        ) {
            PipelineVerdict::Retry
        } else {
            PipelineVerdict::Corrupt
        }
    } else if payload_len < 44 || payload_len as u64 > u32::MAX as u64 {
        PipelineVerdict::Corrupt
    } else {
        PipelineVerdict::Accept
    }
}

/// The voice argument handed to the phoneme process.
pub fn phoneme_voice_arg(voice: &str) -> (r: String)
    ensures
        r@ == "mb/mb-"@ + voice@,
{
    let mut s = String::from_str("mb/mb-");
    s.append(voice);
    s
}

/// The voice-data path handed to the waveform process.
pub fn waveform_voice_path(voice: &str) -> (r: String)
    ensures
        r@ == "/usr/share/mbrola/"@ + voice@ + "/"@ + voice@,
{
    let mut s = String::from_str("/usr/share/mbrola/");
    s.append(voice);
    s.append("/");
    s.append(voice);
    s
}

/// The voice a phoneme-data file name stands for: names of the form
/// "mb-xx" (exactly one dash) name the voice "xx"; anything else names
/// none.
pub open spec fn spec_voice_from_filename(name: Seq<char>) -> Option<Seq<char>> {
    let d1 = crate::text::spec_find(name, '-', 0);
    if d1 == -1 {
        None
    } else if crate::text::spec_find(name, '-', d1 + 1) != -1 {
        None
    } else {
        Some(name.subrange(d1 + 1, name.len() as int))
    }
}

/// Reads a voice name out of a phoneme-data file name.
pub fn voice_from_filename(name: &str) -> (r: Option<String>)
    ensures
        match r {
            Some(voice) => spec_voice_from_filename(name@) == Some(voice@),
            None => spec_voice_from_filename(name@) is None,
        },
{
    proof {
        crate::text::lemma_find_props(name@, '-', 0);
    }
    let n = name.unicode_len();
    let d1 = match crate::text::find_char(name, '-', 0) {
        Some(i) => i,
        None => return None,
    };
    match crate::text::find_char(name, '-', d1 + 1) {
        Some(_) => None,
        None => {
            let voice = name.substring_char(d1 + 1, n);
            Some(String::from_str(voice))
        },
    }
}

} // verus!
