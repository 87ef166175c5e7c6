//! Binary handling of the canonical (non-extensible) 44-byte WAV header the
//! local synthesis pipeline produces: repairing its two size fields and
//! estimating audio duration from its rate fields.
//!
//! Fixed offsets, little-endian: bytes [4, 8) hold the RIFF chunk size,
//! [22, 24) the sample rate field, [24, 28) the channel field, [34, 36) the
//! bits-per-sample field, and [40, 44) the data sub-chunk size.

use vstd::prelude::*;
use vstd::bytes::lemma_auto_spec_u32_to_from_le_bytes;
use vstd::bytes::spec_u16_from_le_bytes;
use vstd::bytes::spec_u32_from_le_bytes;
use vstd::bytes::u16_from_le_bytes;
use vstd::bytes::u32_to_le_bytes;

verus! {

/// Length of a bare WAV header with no sample data.
pub const WAV_HEADER_LEN: usize = 44;

/// The divisor of the duration estimate: sample rate field times channel
/// field times bits-per-sample field, over eight.
pub open spec fn spec_wav_bytes_per_sec(audio: Seq<u8>) -> int
    recommends
        audio.len() >= 44,
{
    spec_u16_from_le_bytes(audio.subrange(22, 24)) as int * spec_u32_from_le_bytes(
        audio.subrange(24, 28),
    ) as int * spec_u16_from_le_bytes(audio.subrange(34, 36)) as int / 8
}

/// Whether a WAV payload's estimated duration is under `max_seconds`.
/// Payloads shorter than a bare header, or whose rate fields make the
/// duration estimate undefined, are treated as unacceptable.
pub open spec fn spec_wav_length_ok(audio: Seq<u8>, max_seconds: int) -> bool {
    &&& audio.len() >= 44
    &&& spec_wav_bytes_per_sec(audio) != 0
    &&& (audio.len() as int) / spec_wav_bytes_per_sec(audio) < max_seconds
}

fn read_le_u16(audio: &Vec<u8>, offset: usize) -> (r: u16)
    requires
        offset + 2 <= audio@.len(),
        audio@.len() <= usize::MAX,
    ensures
        r == spec_u16_from_le_bytes(audio@.subrange(offset as int, offset + 2)),
{
    let mut pair: Vec<u8> = Vec::new();
    pair.push(audio[offset]);
    pair.push(audio[offset + 1]);
    proof {
        assert(pair@ =~= audio@.subrange(offset as int, offset + 2));
    }
    u16_from_le_bytes(pair.as_slice())
}

fn read_le_u32(audio: &Vec<u8>, offset: usize) -> (r: u32)
    requires
        offset + 4 <= audio@.len(),
        audio@.len() <= usize::MAX,
    ensures
        r == spec_u32_from_le_bytes(audio@.subrange(offset as int, offset + 4)),
{
    let mut quad: Vec<u8> = Vec::new();
    quad.push(audio[offset]);
    quad.push(audio[offset + 1]);
    quad.push(audio[offset + 2]);
    quad.push(audio[offset + 3]);
    proof {
        assert(quad@ =~= audio@.subrange(offset as int, offset + 4));
    }
    vstd::bytes::u32_from_le_bytes(quad.as_slice())
}

/// Estimated-duration check for the local pipeline's WAV output, against a
/// caller-supplied maximum number of seconds.
pub fn check_length(audio: &Vec<u8>, max_length: u32) -> (r: bool)
    ensures
        r == spec_wav_length_ok(audio@, max_length as int),
{
    if audio.len() < WAV_HEADER_LEN {
        return false;
    }
    let sample_rate = read_le_u16(audio, 22);
    let channels = read_le_u32(audio, 24);
    let bits_per_sample = read_le_u16(audio, 34);
    let rate128: u128 = sample_rate as u128;
    let channels128: u128 = channels as u128;
    let bits128: u128 = bits_per_sample as u128;
    proof {
        assert(rate128 * channels128 < 0x1_0000_0000_0000 && rate128 * channels128 * bits128
            < 0x1_0000_0000_0000_0000) by (nonlinear_arith)
            requires
                rate128 < 0x1_0000,
                channels128 < 0x1_0000_0000,
                bits128 < 0x1_0000,
        ;
    }
    let product: u128 = rate128 * channels128 * bits128;
    let bytes_per_sec: u128 = product / 8;
    if bytes_per_sec == 0 {
        return false;
    }
    let len: u128 = audio.len() as u128;
    len / bytes_per_sec < max_length as u128
}

/// Repairs the two size fields of a WAV payload in place, from the observed
/// byte length alone: the RIFF chunk size becomes the total length minus 8,
/// and the data sub-chunk size the total length minus 44. All other bytes
/// are unchanged.
pub fn repair_wav_header(wav: &mut Vec<u8>)
    requires
        44 <= old(wav)@.len() <= u32::MAX,
    ensures
        final(wav)@.len() == old(wav)@.len(),
        spec_u32_from_le_bytes(final(wav)@.subrange(4, 8)) == old(wav)@.len() - 8,
        spec_u32_from_le_bytes(final(wav)@.subrange(40, 44)) == old(wav)@.len() - 44,
        forall|i: int|
            0 <= i < old(wav)@.len() && !(4 <= i < 8) && !(40 <= i < 44) ==> final(wav)@[i] == old(
                wav,
            )@[i],
{
    proof {
        lemma_auto_spec_u32_to_from_le_bytes();
    }
    let len: u32 = wav.len() as u32;
    let chunk_size = u32_to_le_bytes(len - 8);
    let data_size = u32_to_le_bytes(len - 44);
    wav[4] = chunk_size[0];
    wav[5] = chunk_size[1];
    wav[6] = chunk_size[2];
    wav[7] = chunk_size[3];
    wav[40] = data_size[0];
    wav[41] = data_size[1];
    wav[42] = data_size[2];
    wav[43] = data_size[3];
    proof {
        assert(wav@.subrange(4, 8) =~= chunk_size@);
        assert(wav@.subrange(40, 44) =~= data_size@);
    }
}

} // verus!
