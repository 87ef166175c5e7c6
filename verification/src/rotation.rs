//! Outbound network-identity rotation: some providers rate-limit by source
//! address, so the gateway keeps one current identity — a pseudo-random seed
//! and the address deterministically derived from it — and replaces it when a
//! probe shows the current one is blocked.
//!
//! Probing and sending are I/O and happen outside this crate; what is here
//! is the classification of a probe's result, the state machine that accepts
//! or discards candidates, and the compare-and-swap discipline that keeps
//! concurrent callers from rotating redundantly.

use vstd::prelude::*;
use vstd::string::StringSliceAdditionalSpecFns;
use rand::Rng;
use crate::errors::Error;
use crate::text::contains_sub;
use crate::text::spec_contains;

verus! {

/// Classification of one probe of a candidate identity: exactly one of
/// usable, rate limited, timed out, or host unreachable. Anything else is a
/// hard upstream failure and is not a probe outcome.
#[derive(Clone, Copy, Debug, PartialEq, Eq, Structural)]
pub enum ProbeOutcome {
    Usable,
    RateLimited,
    TimedOut,
    HostUnreachable,
}

/// What a probe physically returned, reduced to plain values: an HTTP status,
/// or a transport error with its timeout flag and its debug text (as bytes).
pub enum ProbeReply {
    Responded { status: u16 },
    TransportError { timed_out: bool, detail: Vec<u8> },
}

/// The marker texts whose joint presence in a transport error's debug text
/// identifies an unreachable host.
pub open spec fn spec_no_route_marker() -> Seq<u8> {
    "No route to host".spec_bytes()
}

pub open spec fn spec_unreachable_marker() -> Seq<u8> {
    "HostUnreachable".spec_bytes()
}

/// Whether a transport error's debug text identifies an unreachable host:
/// both marker texts must occur.
pub open spec fn spec_host_unreachable(detail: Seq<u8>) -> bool {
    spec_contains(detail, spec_no_route_marker()) && spec_contains(
        detail,
        spec_unreachable_marker(),
    )
}

/// Whether a transport error's debug text identifies an unreachable host.
pub fn is_host_unreachable(detail: &Vec<u8>) -> (r: bool)
    ensures
        r == spec_host_unreachable(detail@),
{
    contains_sub(detail.as_slice(), "No route to host".as_bytes()) && contains_sub(
        detail.as_slice(),
        "HostUnreachable".as_bytes(),
    )
}

/// The classification a probe reply gets, when it gets one.
pub open spec fn spec_classify(reply: ProbeReply) -> Option<ProbeOutcome> {
    match reply {
        ProbeReply::Responded { status } => {
            if status == 429 {
                Some(ProbeOutcome::RateLimited)
            } else if 400 <= status < 600 {
                None
            } else {
                Some(ProbeOutcome::Usable)
            }
        },
        ProbeReply::TransportError { timed_out, detail } => {
            if timed_out {
                Some(ProbeOutcome::TimedOut)
            } else if spec_host_unreachable(detail@) {
                Some(ProbeOutcome::HostUnreachable)
            } else {
                None
            }
        },
    }
}

/// Classifies a probe reply: HTTP 429 is a rate limit, any other 400- or
/// 500-class status is a hard failure, any other status with content is
/// usable; a transport timeout and an unreachable host are their own
/// outcomes, and any other transport error is a hard failure.
pub fn classify_probe(reply: &ProbeReply) -> (r: Result<ProbeOutcome, Error>)
    ensures
        match r {
            Ok(outcome) => spec_classify(*reply) == Some(outcome),
            Err(e) => spec_classify(*reply) is None && (e matches Error::UpstreamFailure(detail)
                && detail@ == "probe failed"@),
        },
{
    match reply {
        ProbeReply::Responded { status } => {
            if *status == 429 {
                Ok(ProbeOutcome::RateLimited)
            } else if 400 <= *status && *status < 600 {
                Err(Error::UpstreamFailure(String::from_str("probe failed")))
            } else {
                Ok(ProbeOutcome::Usable)
            }
        },
        ProbeReply::TransportError { timed_out, detail } => {
            if *timed_out {
                Ok(ProbeOutcome::TimedOut)
            } else if is_host_unreachable(detail) {
                Ok(ProbeOutcome::HostUnreachable)
            } else {
                Err(Error::UpstreamFailure(String::from_str("probe failed")))
            }
        },
    }
}

/// A source address drawn from the configured block, with the seed it was
/// derived from and a generation counter that tells replacements apart.
/// Replaced wholesale on rotation, never mutated.
#[derive(Debug)]
pub struct NetworkIdentity {
    pub seed: String,
    pub address: String,
    pub generation: u64,
}

/// The identity rotator: owns the current identity and counts the candidates
/// it has probed. With rotation administratively disabled it keeps a single
/// fixed unbound identity and never rotates.
#[derive(Debug)]
pub struct IdentityRotator {
    pub current: NetworkIdentity,
    pub enabled: bool,
    pub attempts: u64,
}

/// One candidate step: the attempt count always grows by one; a usable
/// probe installs the candidate as current (with the next generation), any
/// other outcome discards it.
pub open spec fn spec_offer(
    r: IdentityRotator,
    seed: String,
    address: String,
    outcome: ProbeOutcome,
) -> IdentityRotator {
    if outcome == ProbeOutcome::Usable {
        IdentityRotator {
            current: NetworkIdentity {
                seed,
                address,
                generation: (r.current.generation + 1) as u64,
            },
            enabled: r.enabled,
            attempts: (r.attempts + 1) as u64,
        }
    } else {
        IdentityRotator { current: r.current, enabled: r.enabled, attempts: (r.attempts + 1) as u64 }
    }
}

impl IdentityRotator {
    /// The rotator used when rotation is administratively disabled: a fixed
    /// unbound identity, never probed and never replaced.
    pub fn new_disabled() -> (r: IdentityRotator)
        ensures
            !r.enabled,
            r.attempts == 0,
            r.current.seed@ == Seq::<char>::empty(),
            r.current.address@ == "0.0.0.0"@,
            r.current.generation == 0,
    {
        IdentityRotator {
            current: NetworkIdentity {
                seed: String::new(),
                address: String::from_str("0.0.0.0"),
                generation: 0,
            },
            enabled: false,
            attempts: 0,
        }
    }

    /// A rotating rotator that has not yet acquired an identity; candidates
    /// are then offered until one probes usable.
    pub fn new_rotating() -> (r: IdentityRotator)
        ensures
            r.enabled,
            r.attempts == 0,
            r.current.seed@ == Seq::<char>::empty(),
            r.current.address@ == Seq::<char>::empty(),
            r.current.generation == 0,
    {
        IdentityRotator {
            current: NetworkIdentity { seed: String::new(), address: String::new(), generation: 0 },
            enabled: true,
            attempts: 0,
        }
    }

    /// Offers a probed candidate: installs it as current exactly when its
    /// probe was usable, and counts the attempt either way.
    pub fn offer_candidate(
        &mut self,
        seed: String,
        address: String,
        outcome: ProbeOutcome,
    ) -> (accepted: bool)
        requires
            old(self).enabled,
            old(self).attempts < u64::MAX,
            old(self).current.generation < u64::MAX,
        ensures
            accepted == (outcome == ProbeOutcome::Usable),
            *final(self) == spec_offer(*old(self), seed, address, outcome),
    {
        self.attempts = self.attempts + 1;
        if let ProbeOutcome::Usable = outcome {
            let generation = self.current.generation + 1;
            self.current = NetworkIdentity { seed, address, generation };
            true
        } else {
            false
        }
    }

    /// The compare-and-swap discipline: a caller that was rate limited while
    /// using `used` may begin a rotation only if `used` is still the current
    /// identity (and rotation is enabled); otherwise another caller already
    /// replaced it and this one simply retries with the current identity.
    pub fn should_rotate(&self, used: &NetworkIdentity) -> (r: bool)
        ensures
            r == (self.enabled && used.generation == self.current.generation),
    {
        self.enabled && used.generation == self.current.generation
    }
}

/// The rotator after offering the first `n` of the given candidates with
/// their probe outcomes, in order.
pub open spec fn spec_acquire(
    r: IdentityRotator,
    candidates: Seq<(String, String)>,
    outcomes: Seq<ProbeOutcome>,
    n: int,
) -> IdentityRotator
    decreases n,
{
    if n <= 0 {
        r
    } else {
        spec_offer(
            spec_acquire(r, candidates, outcomes, n - 1),
            candidates[n - 1].0,
            candidates[n - 1].1,
            outcomes[n - 1],
        )
    }
}

proof fn lemma_acquire_failures(
    r: IdentityRotator,
    candidates: Seq<(String, String)>,
    outcomes: Seq<ProbeOutcome>,
    n: int,
)
    requires
        0 <= n <= outcomes.len(),
        outcomes.len() == candidates.len(),
        forall|i: int| 0 <= i < n ==> outcomes[i] != ProbeOutcome::Usable,
        r.attempts + n <= u64::MAX,
    ensures
        spec_acquire(r, candidates, outcomes, n).current == r.current,
        spec_acquire(r, candidates, outcomes, n).enabled == r.enabled,
        spec_acquire(r, candidates, outcomes, n).attempts == r.attempts + n,
    decreases n,
{
    if n > 0 {
        lemma_acquire_failures(r, candidates, outcomes, n - 1);
    }
}

/// Rotation convergence: offered a run of candidates whose probes all failed
/// until the last, which probed usable, the rotator counts exactly that many
/// candidate generations, installs exactly the last candidate, and moves the
/// generation forward exactly once.
pub proof fn lemma_rotation_convergence(
    r: IdentityRotator,
    candidates: Seq<(String, String)>,
    outcomes: Seq<ProbeOutcome>,
)
    requires
        outcomes.len() == candidates.len(),
        outcomes.len() >= 1,
        forall|i: int| 0 <= i < outcomes.len() - 1 ==> outcomes[i] != ProbeOutcome::Usable,
        outcomes.last() == ProbeOutcome::Usable,
        r.attempts + outcomes.len() <= u64::MAX,
        r.current.generation < u64::MAX,
    ensures
        spec_acquire(r, candidates, outcomes, outcomes.len() as int).attempts == r.attempts
            + outcomes.len(),
        spec_acquire(r, candidates, outcomes, outcomes.len() as int).current.seed
            == candidates.last().0,
        spec_acquire(r, candidates, outcomes, outcomes.len() as int).current.address
            == candidates.last().1,
        spec_acquire(r, candidates, outcomes, outcomes.len() as int).current.generation
            == r.current.generation + 1,
        spec_acquire(r, candidates, outcomes, outcomes.len() as int).enabled == r.enabled,
{
    let n = outcomes.len() as int;
    lemma_acquire_failures(r, candidates, outcomes, n - 1);
}

/// Relies on rand::thread_rng sampling the Standard distribution: sixteen
/// characters come back; nothing is assumed of which.
#[verifier::external_body]
pub fn random_seed() -> (r: String)
    ensures
        r@.len() == 16,
{
    rand::thread_rng().sample_iter::<char, _>(rand::distributions::Standard).take(16).collect()
}

/// The address that the configured block assigns to a seed, if the block
/// parses and the derivation succeeds; a function of seed and block alone.
pub uninterp spec fn spec_derived_address(seed: Seq<char>, block: Seq<char>) -> Option<Seq<char>>;

/// Relies on ipgen::ip (and ipgen::IpNetwork's FromStr): the derived address
/// is deterministic in the seed and the block.
#[verifier::external_body]
pub fn derive_address(seed: &str, block: &str) -> (r: Option<String>)
    ensures
        match r {
            Some(address) => spec_derived_address(seed@, block@) == Some(address@),
            None => spec_derived_address(seed@, block@) is None,
        },
{
    let net = match block.parse::<ipgen::IpNetwork>() {
        Ok(net) => net,
        Err(_) => return None,
    };
    match ipgen::ip(seed, net) {
        Ok(address) => Some(address.to_string()),
        Err(_) => None,
    }
}

} // verus!
