use std::collections::HashSet;

use hotshot::committee::{
    compute_vrf, get_leader, hash_below_threshold, select_seeded_vrf, select_vrf, sign_vrf,
    verify_selection, verify_signature_and_compute_vrf, vrf_from_signature_bytes, vrf_if_valid,
    CommitteeError,
};
use hotshot::H_256;
use rand_xoshiro::{rand_core::SeedableRng, Xoshiro256StarStar};
use threshold_crypto as tc;

const SECRET_KEYS_SEED: u64 = 1234;
const COMMITTEE_SEED: [u8; H_256] = [20; 32];
const INCORRECT_COMMITTEE_SEED: [u8; H_256] = [23; 32];
const THRESHOLD: u64 = 1000;
const HONEST_NODE_ID: u64 = 30;
const BYZANTINE_NODE_ID: u64 = 45;

#[test]
fn test_vrf() {
    // Generate keys
    let mut rng = Xoshiro256StarStar::seed_from_u64(SECRET_KEYS_SEED);
    let secret_keys = tc::SecretKeySet::random(THRESHOLD as usize - 1, &mut rng);
    let secret_key_share_honest = secret_keys.secret_key_share(HONEST_NODE_ID);
    let secret_key_share_byzantine = secret_keys.secret_key_share(BYZANTINE_NODE_ID);
    let public_keys = secret_keys.public_keys();
    let public_key_honest = public_keys.public_key_share(HONEST_NODE_ID);
    let public_key_byzantine = public_keys.public_key_share(BYZANTINE_NODE_ID);

    // VRF verification should pass with the correct VRF signature and output
    let signature = sign_vrf(&secret_key_share_honest, COMMITTEE_SEED);
    let vrf = compute_vrf(&signature);
    let verification =
        verify_signature_and_compute_vrf(&signature, public_key_honest, COMMITTEE_SEED);
    assert_eq!(verification, Ok(vrf));

    // VRF verification should fail if the signature does not correspond to the public key
    let signature_byzantine = sign_vrf(&secret_key_share_byzantine, COMMITTEE_SEED);
    let verification =
        verify_signature_and_compute_vrf(&signature_byzantine, public_key_honest, COMMITTEE_SEED);
    assert_eq!(verification, Err(CommitteeError::IncorrectVrfSignature));

    // VRF verification should fail if the signature does not correspond to the committee seed
    let signature_byzantine = sign_vrf(&secret_key_share_byzantine, INCORRECT_COMMITTEE_SEED);
    let verification = verify_signature_and_compute_vrf(
        &signature_byzantine,
        public_key_byzantine,
        COMMITTEE_SEED,
    );
    assert_eq!(verification, Err(CommitteeError::IncorrectVrfSignature));
}

#[test]
fn vrf_output_is_deterministic() {
    let mut rng = Xoshiro256StarStar::seed_from_u64(7);
    let secret_keys = tc::SecretKeySet::random(3, &mut rng);
    let sk = secret_keys.secret_key_share(1u64);
    let pk = secret_keys.public_keys().public_key_share(1u64);
    let first = compute_vrf(&sign_vrf(&sk, COMMITTEE_SEED));
    let second = compute_vrf(&sign_vrf(&sk, COMMITTEE_SEED));
    assert_eq!(first, second);
    let signature = sign_vrf(&sk, COMMITTEE_SEED);
    assert_eq!(verify_signature_and_compute_vrf(&signature, pk, COMMITTEE_SEED), Ok(first));
    let other = sign_vrf(&secret_keys.secret_key_share(2u64), COMMITTEE_SEED);
    assert_eq!(
        verify_signature_and_compute_vrf(&other, pk, COMMITTEE_SEED),
        Err(CommitteeError::IncorrectVrfSignature)
    );
}

#[test]
fn vrf_is_blake3_of_signature_bytes() {
    let bytes = [9u8; 96];
    let vrf = vrf_from_signature_bytes(&bytes);
    assert_eq!(vrf, *blake3::hash(&bytes).as_bytes());
    assert_ne!(vrf[..], bytes[..32]);
    assert_eq!(vrf_if_valid(true, &bytes), Ok(vrf));
    assert_eq!(vrf_if_valid(false, &bytes), Err(CommitteeError::IncorrectVrfSignature));
}

#[test]
fn threshold_at_half() {
    // total 1, committee 2: the threshold is 2^255.
    let mut hash = [0u8; 32];
    assert!(hash_below_threshold(&hash, 1, 2));
    hash[0] = 0x80;
    assert!(!hash_below_threshold(&hash, 1, 2));
    let below = [0x7f, 0xff, 0xff, 0xff, 0xff, 0xff, 0xff, 0xff, 0xff, 0xff, 0xff, 0xff, 0xff,
        0xff, 0xff, 0xff, 0xff, 0xff, 0xff, 0xff, 0xff, 0xff, 0xff, 0xff, 0xff, 0xff, 0xff, 0xff,
        0xff, 0xff, 0xff, 0xff];
    assert!(hash_below_threshold(&below, 1, 2));
}

#[test]
fn threshold_at_a_third() {
    // floor(2^256 / 3) is 0x55...55.
    let mut hash = [0x55u8; 32];
    assert!(!hash_below_threshold(&hash, 1, 3));
    hash[31] = 0x54;
    assert!(hash_below_threshold(&hash, 1, 3));
}

#[test]
fn threshold_edges() {
    let top = [0xffu8; 32];
    assert!(hash_below_threshold(&top, 5, 5));
    assert!(hash_below_threshold(&top, 6, 5));
    let zero = [0u8; 32];
    assert!(!hash_below_threshold(&zero, 0, 5));
    assert!(hash_below_threshold(&zero, 1, u64::MAX));
}

#[test]
fn seeded_selection_hashes_vrf_and_seed() {
    let vrf = [3u8; 32];
    for seed in 0..20u64 {
        let mut input = vrf.to_vec();
        input.extend_from_slice(&seed.to_be_bytes());
        let hash = *blake3::hash(&input).as_bytes();
        assert_eq!(select_seeded_vrf(&vrf, seed, 10, 40), hash_below_threshold(&hash, 10, 40));
    }
}

#[test]
fn select_and_verify_agree() {
    let vrf = [11u8; 32];
    let stake = 200u64;
    let selected = select_vrf(&vrf, stake, 30, 100);
    for seed in 0..stake {
        assert_eq!(selected.contains(&seed), select_seeded_vrf(&vrf, seed, 30, 100));
    }
    assert!(!selected.is_empty());
    assert!(selected.len() < stake as usize);
    assert_eq!(verify_selection(&vrf, selected.clone(), stake, 30, 100), Ok(()));
    assert_eq!(verify_selection(&vrf, HashSet::new(), stake, 30, 100), Ok(()));

    let mut out_of_range = selected.clone();
    out_of_range.insert(stake);
    let mut only_out = HashSet::new();
    only_out.insert(stake + 5);
    assert_eq!(
        verify_selection(&vrf, only_out, stake, 30, 100),
        Err(CommitteeError::InvaildVrfSeed)
    );
    assert!(verify_selection(&vrf, out_of_range, stake, 30, 100).is_err());

    let unselected = (0..stake).find(|s| !selected.contains(s)).unwrap();
    let mut claim = HashSet::new();
    claim.insert(unselected);
    assert_eq!(verify_selection(&vrf, claim, stake, 30, 100), Err(CommitteeError::NotSelected));
}

#[test]
fn select_with_no_stake_is_empty() {
    assert!(select_vrf(&[1u8; 32], 0, 10, 10).is_empty());
    assert_eq!(select_vrf(&[1u8; 32], 7, 10, 10).len(), 7);
}

fn seeds(values: &[u64]) -> HashSet<u64> {
    values.iter().copied().collect()
}

#[test]
fn leader_has_most_seeds() {
    let members = vec![(1u64, seeds(&[1, 2, 3])), (2, seeds(&[4, 5, 6])), (3, seeds(&[1, 2, 3, 4, 5]))];
    assert_eq!(get_leader(&members), Some(3));
    assert_eq!(get_leader(&members), Some(3));
}

#[test]
fn leader_ties_go_to_the_last() {
    let members = vec![(7u64, seeds(&[1, 2])), (8, seeds(&[3])), (9, seeds(&[4, 5]))];
    assert_eq!(get_leader(&members), Some(9));
    assert_eq!(get_leader(&members), Some(9));
    assert_eq!(get_leader(&[]), None);
}
