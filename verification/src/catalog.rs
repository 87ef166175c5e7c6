//! Per-backend voice catalogs: fetched once (by whoever does the fetching),
//! read-only afterwards, and queried for voice validation before any
//! synthesis work. Also the shaping of raw provider voice records into the
//! names the catalogs hold.

use vstd::prelude::*;
use crate::text::lemma_lex_irreflexive;
use crate::text::lemma_lex_transitive;
use crate::text::lemma_lex_trichotomy;
use crate::text::spec_lex_lt;
use crate::text::spec_str_views;
use crate::text::str_eq;
use crate::text::str_lt;

verus! {

/// Strict lexicographic ascent between neighbours.
pub open spec fn spec_ascending(names: Seq<Seq<char>>) -> bool {
    forall|i: int| 0 <= i < names.len() - 1 ==> spec_lex_lt(#[trigger] names[i], names[i + 1])
}

/// Whether `x` is among `names`.
pub open spec fn spec_has_name(names: Seq<Seq<char>>, x: Seq<char>) -> bool {
    exists|k: int| 0 <= k < names.len() && names[k] == x
}

/// Ascent between neighbours is ascent between any two positions.
pub proof fn lemma_ascending_pairwise(names: Seq<Seq<char>>, i: int, j: int)
    requires
        spec_ascending(names),
        0 <= i < j < names.len(),
    ensures
        spec_lex_lt(names[i], names[j]),
    decreases j - i,
{
    if j > i + 1 {
        lemma_ascending_pairwise(names, i, j - 1);
        lemma_lex_transitive(names[i], names[j - 1], names[j]);
    }
}

/// An ascending list holds no name twice.
pub proof fn lemma_ascending_distinct(names: Seq<Seq<char>>)
    requires
        spec_ascending(names),
    ensures
        forall|i: int, j: int|
            0 <= i < j < names.len() ==> (#[trigger] names[i]) != (#[trigger] names[j]),
{
    assert forall|i: int, j: int| 0 <= i < j < names.len() implies (#[trigger] names[i]) != (
    #[trigger] names[j]) by {
        lemma_ascending_pairwise(names, i, j);
        lemma_lex_irreflexive(names[i]);
    }
}

fn insert_sorted(sorted: &mut Vec<String>, name: String)
    requires
        spec_ascending(spec_str_views(old(sorted)@)),
    ensures
        spec_ascending(spec_str_views(final(sorted)@)),
        spec_has_name(spec_str_views(final(sorted)@), name@),
        forall|k: int|
            0 <= k < old(sorted)@.len() ==> spec_has_name(
                spec_str_views(final(sorted)@),
                (#[trigger] old(sorted)@[k])@,
            ),
        forall|k: int|
            0 <= k < final(sorted)@.len() ==> ((#[trigger] final(sorted)@[k])@ == name@
                || spec_has_name(spec_str_views(old(sorted)@), final(sorted)@[k]@)),
{
    let ghost vs0 = spec_str_views(sorted@);
    let n = sorted.len();
    let mut i: usize = 0;
    while i < n && str_lt(sorted[i].as_str(), name.as_str())
        invariant
            i <= n,
            n == sorted@.len(),
            *sorted == *old(sorted),
            forall|j: int| 0 <= j < i ==> spec_lex_lt((#[trigger] sorted@[j])@, name@),
        decreases n - i,
    {
        i += 1;
    }
    if i < n {
        if str_eq(sorted[i].as_str(), name.as_str()) {
            proof {
                assert(spec_str_views(sorted@)[i as int] == name@);
                assert(spec_has_name(spec_str_views(sorted@), name@));
                assert forall|k: int| 0 <= k < sorted@.len() implies spec_has_name(
                    spec_str_views(sorted@),
                    (#[trigger] sorted@[k])@,
                ) by {
                    assert(spec_str_views(sorted@)[k] == sorted@[k]@);
                }
            }
            return ;
        }
        proof {
            lemma_lex_trichotomy(vs0[i as int], name@);
            assert(spec_lex_lt(name@, vs0[i as int]));
        }
    }
    sorted.insert(i, name);
    proof {
        let vs1 = spec_str_views(sorted@);
        assert(vs1 =~= vs0.insert(i as int, name@)) by {
            assert forall|k: int| 0 <= k < vs1.len() implies #[trigger] vs1[k] == vs0.insert(
                i as int,
                name@,
            )[k] by {
                if k < i {
                    assert(sorted@[k] == old(sorted)@[k]);
                } else if k > i {
                    assert(sorted@[k] == old(sorted)@[k - 1]);
                }
            }
        }
        assert forall|k: int| 0 <= k < vs1.len() - 1 implies spec_lex_lt(
            #[trigger] vs1[k],
            vs1[k + 1],
        ) by {
            if k + 1 < i {
                assert(vs1[k] == vs0[k] && vs1[k + 1] == vs0[k + 1]);
            } else if k + 1 == i {
                assert(vs1[k] == vs0[k] && vs1[k + 1] == name@);
            } else if k == i {
                assert(vs1[k] == name@ && vs1[k + 1] == vs0[k]);
            } else {
                assert(vs1[k] == vs0[k - 1] && vs1[k + 1] == vs0[k]);
            }
        }
        assert(vs1[i as int] == name@);
        assert forall|k: int| 0 <= k < old(sorted)@.len() implies spec_has_name(
            vs1,
            (#[trigger] old(sorted)@[k])@,
        ) by {
            if k < i {
                assert(vs1[k] == vs0[k]);
            } else {
                assert(vs1[k + 1] == vs0[k]);
            }
        }
        assert forall|k: int| 0 <= k < vs1.len() implies ((#[trigger] sorted@[k])@ == name@
            || spec_has_name(vs0, sorted@[k]@)) by {
            if k < i {
                assert(vs1[k] == vs0[k]);
            } else if k > i {
                assert(vs1[k] == vs0[k - 1]);
            }
        }
    }
}

/// Sorts names into the strictly ascending, duplicate-free list of exactly
/// the names given — the shape an ordered provider catalog guarantees of
/// its listing.
pub fn sorted_unique(names: Vec<String>) -> (r: Vec<String>)
    ensures
        spec_ascending(spec_str_views(r@)),
        forall|i: int, j: int|
            0 <= i < j < r@.len() ==> (#[trigger] r@[i])@ != (#[trigger] r@[j])@,
        forall|k: int|
            0 <= k < names@.len() ==> spec_has_name(spec_str_views(r@), (#[trigger] names@[k])@),
        forall|k: int|
            0 <= k < r@.len() ==> spec_has_name(spec_str_views(names@), (#[trigger] r@[k])@),
{
    let mut r: Vec<String> = Vec::new();
    let n = names.len();
    let mut i: usize = 0;
    proof {
        assert(spec_str_views(r@) =~= Seq::<Seq<char>>::empty());
    }
    while i < n
        invariant
            i <= n,
            n == names@.len(),
            spec_ascending(spec_str_views(r@)),
            forall|k: int|
                0 <= k < i ==> spec_has_name(spec_str_views(r@), (#[trigger] names@[k])@),
            forall|k: int|
                0 <= k < r@.len() ==> spec_has_name(
                    spec_str_views(names@),
                    (#[trigger] r@[k])@,
                ),
        decreases n - i,
    {
        let ghost r_before = r@;
        insert_sorted(&mut r, names[i].clone());
        proof {
            assert(spec_str_views(names@)[i as int] == names@[i as int]@);
            assert forall|k: int| 0 <= k < i + 1 implies spec_has_name(
                spec_str_views(r@),
                (#[trigger] names@[k])@,
            ) by {
                if k < i {
                    let w = choose|w: int|
                        0 <= w < r_before.len() && spec_str_views(r_before)[w] == names@[k]@;
                    assert(spec_has_name(spec_str_views(r@), (r_before[w])@));
                }
            }
            assert forall|k: int| 0 <= k < r@.len() implies spec_has_name(
                spec_str_views(names@),
                (#[trigger] r@[k])@,
            ) by {
                if r@[k]@ != names@[i as int]@ {
                    assert(spec_has_name(spec_str_views(r_before), r@[k]@));
                }
            }
        }
        i += 1;
    }
    proof {
        lemma_ascending_distinct(spec_str_views(r@));
        assert forall|i2: int, j2: int| 0 <= i2 < j2 < r@.len() implies (#[trigger] r@[i2])@ != (
        #[trigger] r@[j2])@ by {
            assert(spec_str_views(r@)[i2] != spec_str_views(r@)[j2]);
        }
    }
    r
}

/// A backend's list of voice names, with its fetched-once discipline: empty
/// and unfetched until the first successful fetch is stored, read-only
/// afterwards (a failed fetch stores nothing and may be retried).
#[derive(Debug)]
pub struct VoiceCatalog {
    voices: Vec<String>,
    fetched: bool,
}

impl VoiceCatalog {
    /// The names held, as character sequences.
    pub closed spec fn spec_names(&self) -> Seq<Seq<char>> {
        Seq::new(self.voices@.len(), |i: int| self.voices@[i]@)
    }

    pub closed spec fn spec_fetched(&self) -> bool {
        self.fetched
    }

    /// Whether `voice` is one of the held names.
    pub open spec fn spec_has_voice(&self, voice: Seq<char>) -> bool {
        exists|i: int| 0 <= i < self.spec_names().len() && self.spec_names()[i] == voice
    }

    /// A catalog nothing has been fetched into yet: it knows no voices.
    pub fn empty() -> (r: VoiceCatalog)
        ensures
            !r.spec_fetched(),
            r.spec_names() == Seq::<Seq<char>>::empty(),
    {
        let r = VoiceCatalog { voices: Vec::new(), fetched: false };
        proof {
            assert(r.spec_names() =~= Seq::<Seq<char>>::empty());
        }
        r
    }

    /// A catalog born fetched, for backends whose voice list is static.
    pub fn from_names(names: Vec<String>) -> (r: VoiceCatalog)
        ensures
            r.spec_fetched(),
            r.spec_names().len() == names@.len(),
            forall|i: int| 0 <= i < names@.len() ==> r.spec_names()[i] == (#[trigger] names@[i])@,
    {
        VoiceCatalog { voices: names, fetched: true }
    }

    pub fn is_fetched(&self) -> (r: bool)
        ensures
            r == self.spec_fetched(),
    {
        self.fetched
    }

    /// Stores the result of a successful fetch — only the first one: a
    /// catalog once fetched is read-only.
    pub fn store_fetch(&mut self, names: Vec<String>)
        ensures
            old(self).spec_fetched() ==> *final(self) == *old(self),
            !old(self).spec_fetched() ==> {
                &&& final(self).spec_fetched()
                &&& final(self).spec_names().len() == names@.len()
                &&& forall|i: int|
                    0 <= i < names@.len() ==> final(self).spec_names()[i] == (
                    #[trigger] names@[i])@
            },
    {
        if !self.fetched {
            self.voices = names;
            self.fetched = true;
        }
    }

    /// Whether `voice` is in the catalog. An unfetched catalog knows no
    /// voices.
    pub fn check_voice(&self, voice: &str) -> (r: bool)
        ensures
            r == self.spec_has_voice(voice@),
    {
        let n = self.voices.len();
        let mut i: usize = 0;
        while i < n
            invariant
                i <= n,
                n == self.voices@.len(),
                forall|j: int| 0 <= j < i ==> (#[trigger] self.voices@[j])@ != voice@,
            decreases n - i,
        {
            if str_eq(self.voices[i].as_str(), voice) {
                proof {
                    assert(self.spec_names()[i as int] == voice@);
                }
                return true;
            }
            i += 1;
        }
        proof {
            assert(!self.spec_has_voice(voice@)) by {
                if self.spec_has_voice(voice@) {
                    let j = choose|j: int|
                        0 <= j < self.spec_names().len() && self.spec_names()[j] == voice@;
                    assert(self.voices@[j]@ == voice@);
                }
            }
        }
        false
    }

    /// A copy of the held names.
    pub fn get_voices(&self) -> (r: Vec<String>)
        ensures
            r@.len() == self.spec_names().len(),
            forall|i: int| 0 <= i < r@.len() ==> (#[trigger] r@[i])@ == self.spec_names()[i],
    {
        let n = self.voices.len();
        let mut r: Vec<String> = Vec::new();
        let mut i: usize = 0;
        while i < n
            invariant
                i <= n,
                n == self.voices@.len(),
                r@.len() == i,
                forall|j: int| 0 <= j < i ==> (#[trigger] r@[j])@ == self.voices@[j]@,
            decreases n - i,
        {
            r.push(self.voices[i].clone());
            i += 1;
        }
        r
    }
}

/// A voice's gender as the gCloud catalog reports it.
#[derive(Clone, Copy, Debug, PartialEq, Eq, Structural)]
pub enum Gender {
    Male,
    Female,
    Unspecified,
}

impl Default for Gender {
    /// An unannotated record counts as unspecified.
    fn default() -> (r: Gender)
        ensures
            r == Gender::Unspecified,
    {
        Gender::Unspecified
    }
}

/// One record of the gCloud voice catalog, as the gateway reads it: the
/// provider's voice name, its gender tag, and its language codes (the first
/// of which names the voice's language).
#[derive(Debug)]
pub struct GoogleVoice {
    pub name: String,
    pub ssml_gender: Gender,
    pub language_codes: Vec<String>,
}

/// A provider service account: the signing key and the issuer identity the
/// credential manager is loaded with.
#[derive(Debug)]
pub struct ServiceAccount {
    pub private_key: String,
    pub client_email: String,
}

/// One record of the Polly voice catalog, reduced to what the gateway reads:
/// the voice id and the engines it supports.
#[derive(Debug)]
pub struct PollyVoice {
    pub id: String,
    pub supported_engines: Vec<String>,
}

/// Whether a Polly voice supports the standard engine.
pub open spec fn spec_supports_standard(v: PollyVoice) -> bool {
    exists|j: int| 0 <= j < v.supported_engines@.len() && (#[trigger] v.supported_engines@[j])@
        == "standard"@
}

impl PollyVoice {
    pub fn supports_standard(&self) -> (r: bool)
        ensures
            r == spec_supports_standard(*self),
    {
        let n = self.supported_engines.len();
        let mut i: usize = 0;
        while i < n
            invariant
                i <= n,
                n == self.supported_engines@.len(),
                forall|j: int| 0 <= j < i ==> (#[trigger] self.supported_engines@[j])@
                    != "standard"@,
            decreases n - i,
        {
            if str_eq(self.supported_engines[i].as_str(), "standard") {
                return true;
            }
            i += 1;
        }
        false
    }
}

/// The ids of the Polly voices that support the standard engine, in catalog
/// order.
pub open spec fn spec_standard_voice_ids(vs: Seq<PollyVoice>) -> Seq<Seq<char>>
    decreases vs.len(),
{
    if vs.len() == 0 {
        Seq::empty()
    } else {
        spec_standard_voice_ids(vs.drop_last()) + (if spec_supports_standard(vs.last()) {
            seq![vs.last().id@]
        } else {
            Seq::empty()
        })
    }
}

/// Keeps, of a raw Polly catalog, the ids of the voices that support the
/// standard engine.
pub fn polly_standard_voice_ids(voices: &Vec<PollyVoice>) -> (r: Vec<String>)
    ensures
        crate::text::spec_str_views(r@) == spec_standard_voice_ids(voices@),
{
    let n = voices.len();
    let mut r: Vec<String> = Vec::new();
    let mut i: usize = 0;
    while i < n
        invariant
            i <= n,
            n == voices@.len(),
            crate::text::spec_str_views(r@) =~= spec_standard_voice_ids(voices@.take(i as int)),
        decreases n - i,
    {
        let ghost views_before = crate::text::spec_str_views(r@);
        if voices[i].supports_standard() {
            r.push(voices[i].id.clone());
            proof {
                assert(crate::text::spec_str_views(r@) =~= views_before + seq![
                    voices@[i as int].id@,
                ]);
            }
        }
        proof {
            assert(voices@.take(i as int + 1).drop_last() =~= voices@.take(i as int));
            assert(voices@.take(i as int + 1).last() == voices@[i as int]);
        }
        i += 1;
    }
    proof {
        assert(voices@.take(n as int) =~= voices@);
    }
    r
}

} // verus!
