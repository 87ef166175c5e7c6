use tts_gateway::errors::Error;
use tts_gateway::rotation::{
    classify_probe, derive_address, is_host_unreachable, random_seed, IdentityRotator,
    ProbeOutcome, ProbeReply,
};

#[test]
fn classify_429_as_rate_limited() {
    let r = classify_probe(&ProbeReply::Responded { status: 429 });
    assert!(matches!(r, Ok(ProbeOutcome::RateLimited)));
}

#[test]
fn classify_success_status_as_usable() {
    assert!(matches!(
        classify_probe(&ProbeReply::Responded { status: 200 }),
        Ok(ProbeOutcome::Usable)
    ));
    assert!(matches!(
        classify_probe(&ProbeReply::Responded { status: 302 }),
        Ok(ProbeOutcome::Usable)
    ));
}

#[test]
fn classify_other_error_statuses_as_hard_failures() {
    for status in [400u16, 404, 500, 503] {
        let r = classify_probe(&ProbeReply::Responded { status });
        assert!(matches!(r, Err(Error::UpstreamFailure(_))), "status {status}");
    }
}

#[test]
fn classify_timeout() {
    let r = classify_probe(&ProbeReply::TransportError { timed_out: true, detail: Vec::new() });
    assert!(matches!(r, Ok(ProbeOutcome::TimedOut)));
}

#[test]
fn classify_host_unreachable_needs_both_markers() {
    let both = b"error: HostUnreachable, No route to host (os error 113)".to_vec();
    let r = classify_probe(&ProbeReply::TransportError { timed_out: false, detail: both });
    assert!(matches!(r, Ok(ProbeOutcome::HostUnreachable)));

    let only_one = b"No route to host".to_vec();
    let r = classify_probe(&ProbeReply::TransportError { timed_out: false, detail: only_one });
    assert!(matches!(r, Err(Error::UpstreamFailure(_))));
}

#[test]
fn host_unreachable_detection() {
    assert!(is_host_unreachable(
        &b"x HostUnreachable y No route to host z".to_vec()
    ));
    assert!(!is_host_unreachable(&b"connection reset".to_vec()));
}

#[test]
fn rotation_convergence_three_candidates() {
    // Probe outcomes [RateLimited, TimedOut, Usable]: exactly 3 candidate
    // generations, and the third candidate becomes current.
    let mut rotator = IdentityRotator::new_rotating();
    let outcomes = [ProbeOutcome::RateLimited, ProbeOutcome::TimedOut, ProbeOutcome::Usable];
    let mut accepted_at = None;
    for (i, outcome) in outcomes.into_iter().enumerate() {
        let seed = format!("seed-{i}");
        let address = format!("addr-{i}");
        if rotator.offer_candidate(seed, address, outcome) {
            accepted_at = Some(i);
            break;
        }
    }
    assert_eq!(accepted_at, Some(2));
    assert_eq!(rotator.attempts, 3);
    assert_eq!(rotator.current.seed, "seed-2");
    assert_eq!(rotator.current.address, "addr-2");
    assert_eq!(rotator.current.generation, 1);
}

#[test]
fn rotation_cas_only_first_caller_rotates() {
    let mut rotator = IdentityRotator::new_rotating();
    rotator.offer_candidate(String::from("s"), String::from("a"), ProbeOutcome::Usable);
    // Two callers hold the identity of generation 1.
    let used = identity_of_generation(rotator.current.generation);
    assert!(rotator.should_rotate(&used));
    // The winner installs a replacement; the loser's check now fails.
    rotator.offer_candidate(String::from("s2"), String::from("a2"), ProbeOutcome::Usable);
    assert!(!rotator.should_rotate(&used));
}

fn identity_of_generation(generation: u64) -> tts_gateway::rotation::NetworkIdentity {
    tts_gateway::rotation::NetworkIdentity {
        seed: String::from("s"),
        address: String::from("a"),
        generation,
    }
}

#[test]
fn disabled_rotator_never_rotates() {
    let rotator = IdentityRotator::new_disabled();
    assert!(!rotator.enabled);
    assert_eq!(rotator.current.address, "0.0.0.0");
    assert!(!rotator.should_rotate(&identity_of_generation(rotator.current.generation)));
}

#[test]
fn random_seed_is_sixteen_chars() {
    let seed = random_seed();
    assert_eq!(seed.chars().count(), 16);
}

#[test]
fn derived_address_is_deterministic_and_in_block() {
    let a = derive_address("some-seed", "fd00::/8").expect("derivation succeeds");
    let b = derive_address("some-seed", "fd00::/8").expect("derivation succeeds");
    assert_eq!(a, b);
    assert!(a.starts_with("fd"), "address {a} not in block");
    let c = derive_address("other-seed", "fd00::/8").expect("derivation succeeds");
    assert_ne!(a, c);
}

#[test]
fn derive_address_rejects_bad_block() {
    assert!(derive_address("seed", "not a block").is_none());
}
