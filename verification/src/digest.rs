//! Content addressing of synthesized audio: a synthesis request is rendered
//! to a canonical text that is injective in its six fields, and the 256-bit
//! digest of that text is the cache key. Two requests are cache-equivalent
//! exactly when their digests match; distinct requests render to distinct
//! canonical texts, so equal keys can come only from the digest itself.

use vstd::prelude::*;
use crate::backend::TTSMode;
use crate::text::lemma_dec_all_digits;
use crate::text::lemma_dec_injective;
use crate::text::spec_dec;
use crate::text::spec_is_digit_char;
use crate::text::u64_to_dec;

verus! {

/// One synthesis request, immutable once constructed.
#[derive(Debug)]
pub struct SynthesisRequest {
    pub text: String,
    pub voice: String,
    pub mode: TTSMode,
    /// Speaking rate in hundredths of the backend's own unit; `None` leaves
    /// the backend's default.
    pub speaking_rate: Option<u32>,
    pub preferred_format: Option<String>,
    pub translation_lang: Option<String>,
}

/// The view of an optional string.
pub open spec fn spec_opt_str(o: Option<String>) -> Option<Seq<char>> {
    match o {
        Some(s) => Some(s@),
        None => None,
    }
}

/// One field of the canonical rendering, length-prefixed so that a field's
/// content can never shift a field boundary: the field's length in decimal,
/// a colon, the field itself.
pub open spec fn spec_field(s: Seq<char>) -> Seq<char> {
    spec_dec(s.len()) + seq![':'] + s
}

/// An optional field: a marker that tells absence apart from every present
/// value, then the field itself only where present.
pub open spec fn spec_opt_field(o: Option<Seq<char>>) -> Seq<char> {
    match o {
        Some(s) => seq!['+'] + spec_field(s),
        None => seq!['-'],
    }
}

/// A speaking rate as canonical text: its hundredths count in decimal.
pub open spec fn spec_rate_text(rate: Option<u32>) -> Option<Seq<char>> {
    match rate {
        Some(r) => Some(spec_dec(r as nat)),
        None => None,
    }
}

impl SynthesisRequest {
    /// The canonical rendering whose digest is the cache key: every field
    /// that affects synthesis output, each length-prefixed, absent optional
    /// fields rendered distinctly from every present value — see
    /// `lemma_canonical_injective`.
    pub open spec fn spec_canonical(self) -> Seq<char> {
        spec_field(self.text@) + (spec_field(self.voice@) + (spec_field(self.mode.spec_str()) + (
        spec_opt_field(spec_rate_text(self.speaking_rate)) + (spec_opt_field(
            spec_opt_str(self.preferred_format),
        ) + spec_opt_field(spec_opt_str(self.translation_lang))))))
    }

    /// The request's cache key.
    pub open spec fn spec_fingerprint(self) -> Seq<u8> {
        spec_sha256(self.spec_canonical())
    }

    /// Renders the canonical text.
    #[verifier::rlimit(50)]
    pub fn canonical(&self) -> (r: String)
        ensures
            r@ == self.spec_canonical(),
    {
        let mut s = String::new();
        append_field(&mut s, self.text.as_str());
        append_field(&mut s, self.voice.as_str());
        append_field(&mut s, self.mode.as_str());
        match &self.speaking_rate {
            Some(rate) => {
                append_marker_present(&mut s);
                let rendered = u64_to_dec(*rate as u64);
                append_field(&mut s, rendered.as_str());
            },
            None => append_marker_absent(&mut s),
        }
        match &self.preferred_format {
            Some(format) => {
                append_marker_present(&mut s);
                append_field(&mut s, format.as_str());
            },
            None => append_marker_absent(&mut s),
        }
        match &self.translation_lang {
            Some(lang) => {
                append_marker_present(&mut s);
                append_field(&mut s, lang.as_str());
            },
            None => append_marker_absent(&mut s),
        }
        proof {
            assert(s@ =~= self.spec_canonical());
        }
        s
    }

    /// The same request with its text replaced — how a translation is
    /// substituted before fingerprinting and synthesis.
    pub fn substitute_text(self, text: String) -> (r: SynthesisRequest)
        ensures
            r.text@ == text@,
            r.voice == self.voice,
            r.mode == self.mode,
            r.speaking_rate == self.speaking_rate,
            r.preferred_format == self.preferred_format,
            r.translation_lang == self.translation_lang,
    {
        SynthesisRequest {
            text,
            voice: self.voice,
            mode: self.mode,
            speaking_rate: self.speaking_rate,
            preferred_format: self.preferred_format,
            translation_lang: self.translation_lang,
        }
    }

    /// Computes the request's cache key: the 256-bit digest of the canonical
    /// rendering.
    pub fn fingerprint(&self) -> (r: Vec<u8>)
        ensures
            r@ == self.spec_fingerprint(),
            r@.len() == 32,
    {
        let canonical = self.canonical();
        sha256_digest(canonical.as_str())
    }
}

fn append_field(s: &mut String, field: &str)
    ensures
        final(s)@ == old(s)@ + spec_field(field@),
{
    let length = field.unicode_len();
    let rendered = u64_to_dec(length as u64);
    s.append(rendered.as_str());
    s.append(":");
    s.append(field);
    proof {
        reveal_strlit(":");
        assert(":"@ =~= seq![':']);
    }
}

fn append_marker_present(s: &mut String)
    ensures
        final(s)@ == old(s)@ + seq!['+'],
{
    s.append("+");
    proof {
        reveal_strlit("+");
        assert("+"@ =~= seq!['+']);
    }
}

fn append_marker_absent(s: &mut String)
    ensures
        final(s)@ == old(s)@ + seq!['-'],
{
    s.append("-");
    proof {
        reveal_strlit("-");
        assert("-"@ =~= seq!['-']);
    }
}

/// The 256-bit digest of a text.
pub uninterp spec fn spec_sha256(data: Seq<char>) -> Seq<u8>;

/// Relies on sha2::Sha256: the digest is a function of the input bytes alone
/// and is always 32 bytes long.
#[verifier::external_body]
fn sha256_digest(data: &str) -> (r: Vec<u8>)
    ensures
        r@ == spec_sha256(data@),
        r@.len() == 32,
{
    let digest = <sha2::Sha256 as sha2::Digest>::digest(data.as_bytes());
    digest.to_vec()
}

/// Fingerprint determinism: requests whose fields agree have the same cache
/// key.
pub proof fn lemma_fingerprint_deterministic(a: SynthesisRequest, b: SynthesisRequest)
    requires
        a.text@ == b.text@,
        a.voice@ == b.voice@,
        a.mode == b.mode,
        a.speaking_rate == b.speaking_rate,
        spec_opt_str(a.preferred_format) == spec_opt_str(b.preferred_format),
        spec_opt_str(a.translation_lang) == spec_opt_str(b.translation_lang),
    ensures
        a.spec_fingerprint() == b.spec_fingerprint(),
{
    assert(a.spec_canonical() == b.spec_canonical());
}

/// Reading one length-prefixed field off the front of a text is
/// unambiguous.
proof fn lemma_field_prefix_injective(s1: Seq<char>, r1: Seq<char>, s2: Seq<char>, r2: Seq<char>)
    requires
        spec_field(s1) + r1 == spec_field(s2) + r2,
    ensures
        s1 == s2,
        r1 == r2,
{
    let d1 = spec_dec(s1.len());
    let d2 = spec_dec(s2.len());
    lemma_dec_all_digits(s1.len());
    lemma_dec_all_digits(s2.len());
    assert(!spec_is_digit_char(':'));
    let lhs = spec_field(s1) + r1;
    let rhs = spec_field(s2) + r2;
    assert(lhs =~= d1 + seq![':'] + s1 + r1);
    assert(rhs =~= d2 + seq![':'] + s2 + r2);
    if d1.len() < d2.len() {
        let k = d1.len() as int;
        assert((d1 + seq![':'] + s1 + r1)[k] == ':');
        assert((d2 + seq![':'] + s2 + r2)[k] == d2[k]);
        assert(spec_is_digit_char(d2[k]));
        assert(false);
    } else if d2.len() < d1.len() {
        let k = d2.len() as int;
        assert((d2 + seq![':'] + s2 + r2)[k] == ':');
        assert((d1 + seq![':'] + s1 + r1)[k] == d1[k]);
        assert(spec_is_digit_char(d1[k]));
        assert(false);
    }
    let dl = d1.len() as int;
    assert(d1 =~= d2) by {
        assert forall|i: int| 0 <= i < dl implies #[trigger] d1[i] == d2[i] by {
            assert((d1 + seq![':'] + s1 + r1)[i] == d1[i]);
            assert((d2 + seq![':'] + s2 + r2)[i] == d2[i]);
        }
    }
    lemma_dec_injective(s1.len(), s2.len());
    assert(s1 =~= s2) by {
        assert forall|i: int| 0 <= i < s1.len() implies #[trigger] s1[i] == s2[i] by {
            assert((d1 + seq![':'] + s1 + r1)[dl + 1 + i] == s1[i]);
            assert((d2 + seq![':'] + s2 + r2)[dl + 1 + i] == s2[i]);
        }
    }
    assert(r1.len() == r2.len());
    let base = dl + 1 + s1.len() as int;
    assert(r1 =~= r2) by {
        assert forall|i: int| 0 <= i < r1.len() implies #[trigger] r1[i] == r2[i] by {
            assert((d1 + seq![':'] + s1 + r1)[base + i] == r1[i]);
            assert((d2 + seq![':'] + s2 + r2)[base + i] == r2[i]);
        }
    }
}

/// Reading one optional field off the front of a text is unambiguous.
proof fn lemma_opt_field_prefix_injective(
    o1: Option<Seq<char>>,
    r1: Seq<char>,
    o2: Option<Seq<char>>,
    r2: Seq<char>,
)
    requires
        spec_opt_field(o1) + r1 == spec_opt_field(o2) + r2,
    ensures
        o1 == o2,
        r1 == r2,
{
    let lhs = spec_opt_field(o1) + r1;
    let rhs = spec_opt_field(o2) + r2;
    match (o1, o2) {
        (Option::None, Option::None) => {
            assert(lhs =~= seq!['-'] + r1);
            assert(rhs =~= seq!['-'] + r2);
            assert(r1.len() == r2.len());
            assert(r1 =~= r2) by {
                assert forall|i: int| 0 <= i < r1.len() implies #[trigger] r1[i] == r2[i] by {
                    assert((seq!['-'] + r1)[1 + i] == r1[i]);
                    assert((seq!['-'] + r2)[1 + i] == r2[i]);
                }
            }
        },
        (Option::Some(s1), Option::Some(s2)) => {
            let f1 = spec_field(s1) + r1;
            let f2 = spec_field(s2) + r2;
            assert(lhs =~= seq!['+'] + f1);
            assert(rhs =~= seq!['+'] + f2);
            assert(f1 =~= f2) by {
                assert((seq!['+'] + f1).len() == (seq!['+'] + f2).len());
                assert forall|i: int| 0 <= i < f1.len() implies #[trigger] f1[i] == f2[i] by {
                    assert((seq!['+'] + f1)[1 + i] == f1[i]);
                    assert((seq!['+'] + f2)[1 + i] == f2[i]);
                }
            }
            lemma_field_prefix_injective(s1, r1, s2, r2);
        },
        (Option::None, Option::Some(s2)) => {
            assert(lhs[0] == '-');
            assert(rhs =~= seq!['+'] + (spec_field(s2) + r2));
            assert(rhs[0] == '+');
        },
        (Option::Some(s1), Option::None) => {
            assert(lhs =~= seq!['+'] + (spec_field(s1) + r1));
            assert(lhs[0] == '+');
            assert(rhs[0] == '-');
        },
    }
}

proof fn lemma_mode_str_injective(m1: TTSMode, m2: TTSMode)
    requires
        m1.spec_str() == m2.spec_str(),
    ensures
        m1 == m2,
{
    reveal_strlit("gTTS");
    reveal_strlit("Polly");
    reveal_strlit("eSpeak");
    reveal_strlit("gCloud");
    assert("gTTS"@.len() == 4);
    assert("Polly"@.len() == 5);
    assert("eSpeak"@.len() == 6);
    assert("gCloud"@.len() == 6);
    match (m1, m2) {
        (TTSMode::eSpeak, TTSMode::gCloud) => {
            assert("eSpeak"@[0] == 'e');
            assert("gCloud"@[0] == 'g');
        },
        (TTSMode::gCloud, TTSMode::eSpeak) => {
            assert("eSpeak"@[0] == 'e');
            assert("gCloud"@[0] == 'g');
        },
        _ => {},
    }
}

/// The canonical rendering is injective in the six request fields: requests
/// that differ in any field render to different canonical texts, so equal
/// fingerprints can arise only from the digest itself.
pub proof fn lemma_canonical_injective(a: SynthesisRequest, b: SynthesisRequest)
    requires
        a.spec_canonical() == b.spec_canonical(),
    ensures
        a.text@ == b.text@,
        a.voice@ == b.voice@,
        a.mode == b.mode,
        a.speaking_rate == b.speaking_rate,
        spec_opt_str(a.preferred_format) == spec_opt_str(b.preferred_format),
        spec_opt_str(a.translation_lang) == spec_opt_str(b.translation_lang),
{
    let a6 = spec_opt_field(spec_opt_str(a.translation_lang));
    let b6 = spec_opt_field(spec_opt_str(b.translation_lang));
    let a5 = spec_opt_field(spec_opt_str(a.preferred_format)) + a6;
    let b5 = spec_opt_field(spec_opt_str(b.preferred_format)) + b6;
    let a4 = spec_opt_field(spec_rate_text(a.speaking_rate)) + a5;
    let b4 = spec_opt_field(spec_rate_text(b.speaking_rate)) + b5;
    let a3 = spec_field(a.mode.spec_str()) + a4;
    let b3 = spec_field(b.mode.spec_str()) + b4;
    let a2 = spec_field(a.voice@) + a3;
    let b2 = spec_field(b.voice@) + b3;
    assert(spec_field(a.text@) + a2 == a.spec_canonical());
    assert(spec_field(b.text@) + b2 == b.spec_canonical());
    lemma_field_prefix_injective(a.text@, a2, b.text@, b2);
    lemma_field_prefix_injective(a.voice@, a3, b.voice@, b3);
    lemma_field_prefix_injective(a.mode.spec_str(), a4, b.mode.spec_str(), b4);
    lemma_mode_str_injective(a.mode, b.mode);
    lemma_opt_field_prefix_injective(
        spec_rate_text(a.speaking_rate),
        a5,
        spec_rate_text(b.speaking_rate),
        b5,
    );
    match (a.speaking_rate, b.speaking_rate) {
        (Option::Some(r1), Option::Some(r2)) => {
            lemma_dec_injective(r1 as nat, r2 as nat);
        },
        _ => {},
    }
    lemma_opt_field_prefix_injective(
        spec_opt_str(a.preferred_format),
        a6,
        spec_opt_str(b.preferred_format),
        b6,
    );
    let empty = Seq::<char>::empty();
    assert(a6 =~= spec_opt_field(spec_opt_str(a.translation_lang)) + empty);
    assert(b6 =~= spec_opt_field(spec_opt_str(b.translation_lang)) + empty);
    lemma_opt_field_prefix_injective(
        spec_opt_str(a.translation_lang),
        empty,
        spec_opt_str(b.translation_lang),
        empty,
    );
}

} // verus!
