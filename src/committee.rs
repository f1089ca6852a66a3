//! Stake-weighted committee election through a verifiable random function.
//!
//! A node signs the round's committee seed with its VRF secret key share; the
//! hash of that signature is its VRF output. Each of the node's stake units
//! (a "VRF seed" in `[0, stake)`) is then selected independently when the hash
//! of the VRF output and the seed, read as a 256-bit big-endian integer, lies
//! below `total_stake * 2^256 / committee_size`.
use std::collections::HashSet;
use threshold_crypto::{PublicKeyShare, SecretKeyShare, SignatureShare};
use vstd::prelude::*;
use vstd::std_specs::iter::IteratorSpec;

use crate::H_256;

verus! {

broadcast use vstd::std_specs::hash::group_hash_axioms;

/// Seed for committee election, changed in each round.
pub type CommitteeSeed = [u8; H_256];

/// VRF output for committee election.
pub type CommitteeVrf = [u8; H_256];

/// Error type for committee election.
#[derive(Debug, Clone, Copy, PartialEq, Eq)]
pub enum CommitteeError {
    /// The VRF signature is not the correct signature from the public key and the message.
    IncorrectVrfSignature,
    /// The VRF seed exceeds stake.
    InvaildVrfSeed,
    /// The seeded VRF should not be elected.
    NotSelected,
}

#[verifier::external_type_specification]
#[verifier::external_body]
pub struct ExSecretKeyShare(SecretKeyShare);

#[verifier::external_type_specification]
#[verifier::external_body]
pub struct ExPublicKeyShare(PublicKeyShare);

#[verifier::external_type_specification]
#[verifier::external_body]
pub struct ExSignatureShare(SignatureShare);

/// The BLAKE3 digest of a byte string.
pub uninterp spec fn blake3_of(input: Seq<u8>) -> Seq<u8>;

/// Relies on `blake3::hash`: the 32-byte BLAKE3 digest of the input, which
/// depends on the input alone.
#[verifier::external_body]
fn blake3_hash(input: &[u8]) -> (r: [u8; 32])
    ensures
        r@ == blake3_of(input@),
{
    *blake3::hash(input).as_bytes()
}

/// The signature share that a secret key share gives a message.
pub uninterp spec fn sign_of(sk: SecretKeyShare, msg: Seq<u8>) -> SignatureShare;

/// Whether a signature share matches a message under a public key share.
pub uninterp spec fn share_verifies(pk: PublicKeyShare, sig: SignatureShare, msg: Seq<u8>) -> bool;

/// The encoding of a signature share.
pub uninterp spec fn share_bytes_of(sig: SignatureShare) -> Seq<u8>;

/// Relies on `threshold_crypto::SecretKeyShare::sign`: the BLS signature
/// share over the message, which depends on the key and the message alone.
#[verifier::external_body]
fn sign_seed(sk: &SecretKeyShare, msg: &[u8; 32]) -> (r: SignatureShare)
    ensures
        r == sign_of(*sk, msg@),
{
    sk.sign(msg)
}

/// Relies on `threshold_crypto::PublicKeyShare::verify`: a pairing check of
/// the signature share against the message, on its arguments alone.
#[verifier::external_body]
fn verify_seed(pk: &PublicKeyShare, sig: &SignatureShare, msg: &[u8; 32]) -> (r: bool)
    ensures
        r == share_verifies(*pk, *sig, msg@),
{
    pk.verify(sig, msg)
}

/// Relies on `threshold_crypto::SignatureShare::to_bytes`: the 96-byte
/// compressed encoding of the signature share.
#[verifier::external_body]
fn signature_share_bytes(sig: &SignatureShare) -> (r: [u8; 96])
    ensures
        r@ == share_bytes_of(*sig),
{
    sig.to_bytes()
}

/// The eight bytes of a `u64`, most significant first.
pub open spec fn u64_be_bytes(x: u64) -> Seq<u8> {
    seq![
        (x >> 56u64) as u8,
        (x >> 48u64) as u8,
        (x >> 40u64) as u8,
        (x >> 32u64) as u8,
        (x >> 24u64) as u8,
        (x >> 16u64) as u8,
        (x >> 8u64) as u8,
        x as u8,
    ]
}

/// The hash that decides whether stake unit `vrf_seed` is selected.
pub open spec fn selection_hash(vrf: Seq<u8>, vrf_seed: u64) -> Seq<u8> {
    blake3_of(vrf + u64_be_bytes(vrf_seed))
}

/// Whether stake unit `vrf_seed` is selected under VRF output `vrf`.
pub open spec fn seed_selected(vrf: Seq<u8>, vrf_seed: u64, total_stake: u64, committee_size: u64) -> bool {
    hash_selected(selection_hash(vrf, vrf_seed), total_stake, committee_size)
}

/// The stake units in `[0, stake)` that VRF output `vrf` selects.
pub open spec fn selected_seeds(vrf: Seq<u8>, stake: u64, total_stake: u64, committee_size: u64) -> Set<u64> {
    Set::new(|s: u64| s < stake && seed_selected(vrf, s, total_stake, committee_size))
}

/// `256^n`.
pub open spec fn pow256(n: nat) -> nat
    decreases n,
{
    if n == 0 {
        1
    } else {
        256 * pow256((n - 1) as nat)
    }
}

/// The unsigned integer that a byte string denotes, most significant byte first.
pub open spec fn be_value(s: Seq<u8>) -> nat
    decreases s.len(),
{
    if s.len() == 0 {
        0
    } else {
        be_value(s.drop_last()) * 256 + s.last() as nat
    }
}

/// Whether a hash, read as a big-endian integer, lies below the selection
/// threshold `total_stake * 2^256 / committee_size`.
pub open spec fn hash_selected(hash: Seq<u8>, total_stake: u64, committee_size: u64) -> bool {
    be_value(hash) < (total_stake as nat * pow256(32)) / (committee_size as nat)
}

proof fn lemma_pow256_positive(n: nat)
    ensures
        pow256(n) >= 1,
    decreases n,
{
    if n > 0 {
        lemma_pow256_positive((n - 1) as nat);
    }
}

proof fn lemma_pow256_add(a: nat, b: nat)
    ensures
        pow256(a + b) == pow256(a) * pow256(b),
    decreases b,
{
    if b > 0 {
        let b1 = (b - 1) as nat;
        lemma_pow256_add(a, b1);
        assert((a + b - 1) as nat == a + b1);
        assert(pow256(a + b) == 256 * pow256(a + b1));
        assert(pow256(b) == 256 * pow256(b1));
        let pa = pow256(a);
        let pb = pow256(b1);
        assert(256 * (pa * pb) == pa * (256 * pb)) by (nonlinear_arith);
    } else {
        assert(pow256(0) == 1);
        assert(a + b == a);
    }
}

proof fn lemma_be_value_bound(s: Seq<u8>)
    ensures
        be_value(s) < pow256(s.len()),
    decreases s.len(),
{
    if s.len() > 0 {
        let p = s.drop_last();
        lemma_be_value_bound(p);
        let v = be_value(p);
        let q = pow256(p.len());
        assert(pow256(s.len()) == 256 * q);
        assert(v * 256 + (s.last() as nat) < 256 * q) by (nonlinear_arith)
            requires
                v < q,
                s.last() < 256,
        ;
    }
}

/// Splitting a byte string splits its value: the prefix is shifted left by
/// the length of the suffix.
proof fn lemma_be_value_split(s: Seq<u8>, k: int)
    requires
        0 <= k <= s.len(),
    ensures
        be_value(s) == be_value(s.take(k)) * pow256((s.len() - k) as nat) + be_value(s.skip(k)),
    decreases s.len() - k,
{
    if k == s.len() {
        assert(s.take(k) =~= s);
        assert(s.skip(k).len() == 0);
        assert(be_value(s.skip(k)) == 0);
        assert(pow256(0) == 1);
        assert((s.len() - k) as nat == 0);
        assert(be_value(s) * pow256(0) == be_value(s));
    } else {
        lemma_be_value_split(s, k + 1);
        let m = (s.len() - k - 1) as nat;
        assert(s.take(k + 1).drop_last() =~= s.take(k));
        assert(be_value(s.take(k + 1)) == be_value(s.take(k)) * 256 + s[k] as nat);
        let suffix = s.skip(k);
        lemma_be_value_split_front(suffix);
        assert(suffix.skip(1) =~= s.skip(k + 1));
        assert(suffix[0] == s[k]);
        let a = be_value(s.take(k));
        let b = s[k] as nat;
        let pm = pow256(m);
        let rest = be_value(s.skip(k + 1));
        assert((s.len() - k) as nat - 1 == m);
        assert((s.len() - (k + 1)) as nat == m);
        assert(pow256((s.len() - k) as nat) == 256 * pm);
        assert(be_value(s) == (a * 256 + b) * pm + rest);
        assert(be_value(suffix) == b * pm + rest);
        assert((a * 256 + b) * pm + rest == a * (256 * pm) + (b * pm + rest)) by (nonlinear_arith);
    }
}

/// The first byte of a non-empty string weighs `256^(len - 1)`.
proof fn lemma_be_value_split_front(s: Seq<u8>)
    requires
        s.len() > 0,
    ensures
        be_value(s) == s[0] as nat * pow256((s.len() - 1) as nat) + be_value(s.skip(1)),
    decreases s.len(),
{
    let p = s.drop_last();
    let last = s.last() as nat;
    assert(be_value(s) == be_value(p) * 256 + last);
    if s.len() == 1 {
        assert(be_value(p) == 0);
        assert(s.skip(1).len() == 0);
        assert(be_value(s.skip(1)) == 0);
        assert(pow256(0) == 1);
        assert(s.last() == s[0]);
        assert(s[0] as nat * pow256(0) == s[0] as nat);
    } else {
        lemma_be_value_split_front(p);
        let tail = s.skip(1);
        assert(p.skip(1) =~= tail.drop_last());
        assert(tail.last() == s.last());
        assert(p[0] == s[0]);
        let r = be_value(p.skip(1));
        assert(be_value(tail) == be_value(tail.drop_last()) * 256 + tail.last() as nat);
        assert(be_value(tail) == r * 256 + last);
        let a = s[0] as nat;
        let pm = pow256((p.len() - 1) as nat);
        assert(be_value(p) == a * pm + r);
        assert((s.len() - 1) as nat - 1 == (p.len() - 1) as nat);
        assert(pow256((s.len() - 1) as nat) == 256 * pm);
        assert((a * pm + r) * 256 + last == a * (256 * pm) + (r * 256 + last)) by (nonlinear_arith);
    }
}

/// Whether the hash lies below the threshold `total_stake * 2^256 /
/// committee_size`, decided without computing the 256-bit threshold.
pub fn hash_below_threshold(hash: &[u8; 32], total_stake: u64, committee_size: u64) -> (r: bool)
    requires
        committee_size > 0,
    ensures
        r == hash_selected(hash@, total_stake, committee_size),
{
    let c: i128 = committee_size as i128;
    // slack == total_stake * 256^i - value(hash[..i]) * committee_size
    let mut slack: i128 = total_stake as i128;
    let ghost h = hash@;
    let ghost t = total_stake as int;
    let ghost cs = committee_size as int;
    proof {
        lemma_be_value_bound(h);
        assert(h.len() == 32);
        lemma_be_value_split(h, 0);
        assert(h.take(0).len() == 0);
        assert(h.skip(0) =~= h);
        assert(pow256(0) == 1);
        assert(t * pow256(0) == t);
        assert(be_value(h.take(0)) == 0);
        assert(be_value(h.take(0)) * cs == 0);
    }
    if slack >= c {
        proof {
            lemma_accept_from(h, 0, t, cs, slack as int);
        }
        return true;
    }
    let mut i: usize = 0;
    while i < 32
        invariant
            0 <= i <= 32,
            h == hash@,
            h.len() == 32,
            c == cs,
            cs == committee_size,
            cs > 0,
            t == total_stake,
            0 <= slack < c,
            slack == t * pow256(i as nat) - be_value(h.take(i as int)) * cs,
        decreases 32 - i,
    {
        let b: u8 = hash[i];
        let ghost prev = slack as int;
        assert(256 * prev < 256 * 0x1_0000_0000_0000_0000int) by (nonlinear_arith)
            requires
                prev < cs,
                cs <= 0xffff_ffff_ffff_ffff,
        ;
        assert(b as int * cs <= 255 * 0xffff_ffff_ffff_ffffint) by (nonlinear_arith)
            requires
                b <= 255,
                0 < cs <= 0xffff_ffff_ffff_ffff,
        ;
        slack = 256 * slack - (b as i128) * c;
        proof {
            assert(h.take(i + 1).drop_last() =~= h.take(i as int));
            assert(be_value(h.take(i + 1)) == be_value(h.take(i as int)) * 256 + b as nat);
            assert(pow256((i + 1) as nat) == 256 * pow256(i as nat));
            let pv = be_value(h.take(i as int));
            let pw = pow256(i as nat);
            assert(256 * (t * pw - pv * cs) - b as int * cs == t * (256 * pw) - (pv * 256 + b
                as int) * cs) by (nonlinear_arith);
        }
        i = i + 1;
        if slack < 0 {
            proof {
                lemma_reject_from(h, i as int, t, cs, slack as int);
            }
            return false;
        }
        if slack >= c {
            proof {
                lemma_accept_from(h, i as int, t, cs, slack as int);
            }
            return true;
        }
    }
    proof {
        assert(h.take(32) =~= h);
        let x = t * pow256(32);
        let v = be_value(h) as int;
        assert(x == v * cs + slack);
        vstd::arithmetic::div_mod::lemma_fundamental_div_mod_converse(x, cs, v, slack as int);
    }
    false
}

/// Once the slack after a prefix reaches the committee size, the whole hash
/// lies below the threshold, whatever bytes follow.
proof fn lemma_accept_from(h: Seq<u8>, k: int, t: int, cs: int, slack: int)
    requires
        0 <= k <= h.len(),
        cs > 0,
        t >= 0,
        slack >= cs,
        slack == t * pow256(k as nat) - be_value(h.take(k)) * cs,
    ensures
        be_value(h) < (t * pow256(h.len())) / cs,
{
    let m = (h.len() - k) as nat;
    lemma_be_value_split(h, k);
    lemma_be_value_bound(h.skip(k));
    lemma_pow256_add(k as nat, m);
    assert(k as nat + m == h.len());
    let pm = pow256(m) as int;
    let pk = pow256(k as nat) as int;
    let p = be_value(h.take(k)) as int;
    let s = be_value(h.skip(k)) as int;
    let v = be_value(h) as int;
    let x = t * pow256(h.len());
    assert(v == p * pm + s);
    assert(x == t * (pk * pm));
    assert(x - v * cs == pm * slack - s * cs) by (nonlinear_arith)
        requires
            v == p * pm + s,
            x == t * (pk * pm),
            slack == t * pk - p * cs,
    ;
    assert(pm * slack - s * cs >= cs) by (nonlinear_arith)
        requires
            slack >= cs,
            s < pm,
            s >= 0,
            cs > 0,
    ;
    assert((v + 1) * cs <= x) by (nonlinear_arith)
        requires
            x - v * cs >= cs,
    ;
    vstd::arithmetic::div_mod::lemma_fundamental_div_mod(x, cs);
    let q = x / cs;
    let r = x % cs;
    assert(v < q) by (nonlinear_arith)
        requires
            (v + 1) * cs <= x,
            x == cs * q + r,
            0 <= r < cs,
    ;
}

/// Once the slack after a prefix is negative, the hash lies at or above the
/// threshold, whatever bytes follow.
proof fn lemma_reject_from(h: Seq<u8>, k: int, t: int, cs: int, slack: int)
    requires
        0 <= k <= h.len(),
        cs > 0,
        t >= 0,
        slack < 0,
        slack == t * pow256(k as nat) - be_value(h.take(k)) * cs,
    ensures
        !(be_value(h) < (t * pow256(h.len())) / cs),
{
    let m = (h.len() - k) as nat;
    lemma_be_value_split(h, k);
    lemma_pow256_add(k as nat, m);
    lemma_pow256_positive(m);
    assert(k as nat + m == h.len());
    let pm = pow256(m) as int;
    let pk = pow256(k as nat) as int;
    let p = be_value(h.take(k)) as int;
    let s = be_value(h.skip(k)) as int;
    let v = be_value(h) as int;
    let x = t * pow256(h.len());
    assert(x - v * cs == pm * slack - s * cs) by (nonlinear_arith)
        requires
            v == p * pm + s,
            x == t * (pk * pm),
            slack == t * pk - p * cs,
    ;
    assert(pm * slack - s * cs < 0) by (nonlinear_arith)
        requires
            slack < 0,
            pm >= 1,
            s >= 0,
            cs > 0,
    ;
    assert(x >= 0) by (nonlinear_arith)
        requires
            t >= 0,
            x == t * (pk * pm),
            pk >= 0,
            pm >= 0,
    ;
    vstd::arithmetic::div_mod::lemma_fundamental_div_mod(x, cs);
    let q = x / cs;
    let r = x % cs;
    assert(q <= v) by (nonlinear_arith)
        requires
            x < v * cs,
            x == cs * q + r,
            0 <= r < cs,
            cs > 0,
    ;
}

fn u64_to_be_bytes(x: u64) -> (r: [u8; 8])
    ensures
        r@ == u64_be_bytes(x),
{
    let r = [
        (x >> 56u64) as u8,
        (x >> 48u64) as u8,
        (x >> 40u64) as u8,
        (x >> 32u64) as u8,
        (x >> 24u64) as u8,
        (x >> 16u64) as u8,
        (x >> 8u64) as u8,
        x as u8,
    ];
    assert(r@ =~= u64_be_bytes(x));
    r
}

/// Signs the committee seed with a VRF secret key share.
pub fn sign_vrf(vrf_secret_key_share: &SecretKeyShare, committee_seed: CommitteeSeed) -> (r: SignatureShare)
    ensures
        r == sign_of(*vrf_secret_key_share, committee_seed@),
{
    sign_seed(vrf_secret_key_share, &committee_seed)
}

/// The VRF output that belongs to the encoding of a signature share: its
/// BLAKE3 digest.
pub fn vrf_from_signature_bytes(signature_bytes: &[u8; 96]) -> (r: CommitteeVrf)
    ensures
        r@ == blake3_of(signature_bytes@),
{
    blake3_hash(signature_bytes.as_slice())
}

/// Computes the VRF output for committee election associated with the signature.
pub fn compute_vrf(vrf_signature: &SignatureShare) -> (r: CommitteeVrf)
    ensures
        r@ == blake3_of(share_bytes_of(*vrf_signature)),
{
    let bytes = signature_share_bytes(vrf_signature);
    vrf_from_signature_bytes(&bytes)
}

/// What the verification of a VRF signature yields, given whether the
/// signature was valid and the signature's encoding.
pub fn vrf_if_valid(valid: bool, signature_bytes: &[u8; 96]) -> (r: Result<CommitteeVrf, CommitteeError>)
    ensures
        valid ==> (r matches Ok(v) && v@ == blake3_of(signature_bytes@)),
        !valid ==> r == Err::<CommitteeVrf, CommitteeError>(CommitteeError::IncorrectVrfSignature),
{
    if !valid {
        return Err(CommitteeError::IncorrectVrfSignature);
    }
    Ok(vrf_from_signature_bytes(signature_bytes))
}

/// Verifies a VRF signature and computes the VRF output.
///
/// Fails with `IncorrectVrfSignature` when the signature is not the one of
/// the public key share over the committee seed.
pub fn verify_signature_and_compute_vrf(
    vrf_signature: &SignatureShare,
    vrf_public_key: PublicKeyShare,
    committee_seed: CommitteeSeed,
) -> (r: Result<CommitteeVrf, CommitteeError>)
    ensures
        (r is Ok) == share_verifies(vrf_public_key, *vrf_signature, committee_seed@),
        r matches Ok(v) ==> v@ == blake3_of(share_bytes_of(*vrf_signature)),
        r is Err ==> r == Err::<CommitteeVrf, CommitteeError>(CommitteeError::IncorrectVrfSignature),
{
    let valid = verify_seed(&vrf_public_key, vrf_signature, &committee_seed);
    let bytes = signature_share_bytes(vrf_signature);
    vrf_if_valid(valid, &bytes)
}

/// Determines whether stake unit `vrf_seed` of a node with VRF output `vrf`
/// is selected: the BLAKE3 hash of `vrf` followed by the big-endian bytes of
/// `vrf_seed` must lie below `total_stake * 2^256 / committee_size`.
pub fn select_seeded_vrf(vrf: &CommitteeVrf, vrf_seed: u64, total_stake: u64, committee_size: u64) -> (r: bool)
    requires
        committee_size > 0,
    ensures
        r == seed_selected(vrf@, vrf_seed, total_stake, committee_size),
{
    let seed_bytes = u64_to_be_bytes(vrf_seed);
    let mut input: Vec<u8> = Vec::new();
    let mut i: usize = 0;
    while i < 32
        invariant
            0 <= i <= 32,
            input@ == vrf@.take(i as int),
        decreases 32 - i,
    {
        input.push(vrf[i]);
        i = i + 1;
        assert(input@ =~= vrf@.take(i as int));
    }
    let mut j: usize = 0;
    while j < 8
        invariant
            0 <= j <= 8,
            input@ == vrf@ + seed_bytes@.take(j as int),
        decreases 8 - j,
    {
        input.push(seed_bytes[j]);
        j = j + 1;
        assert(input@ =~= vrf@ + seed_bytes@.take(j as int));
    }
    assert(seed_bytes@.take(8) =~= seed_bytes@);
    let hash = blake3_hash(input.as_slice());
    hash_below_threshold(&hash, total_stake, committee_size)
}

/// Determines the participation of a VRF: the set of stake units in
/// `[0, stake)` that the VRF output selects.
pub fn select_vrf(vrf: &CommitteeVrf, stake: u64, total_stake: u64, committee_size: u64) -> (r: HashSet<u64>)
    requires
        committee_size > 0,
    ensures
        r@ == selected_seeds(vrf@, stake, total_stake, committee_size),
{
    let mut selected: HashSet<u64> = HashSet::new();
    let mut vrf_seed: u64 = 0;
    while vrf_seed < stake
        invariant
            committee_size > 0,
            vrf_seed <= stake,
            selected@ == selected_seeds(vrf@, vrf_seed, total_stake, committee_size),
        decreases stake - vrf_seed,
    {
        if select_seeded_vrf(vrf, vrf_seed, total_stake, committee_size) {
            selected.insert(vrf_seed);
        }
        vrf_seed = vrf_seed + 1;
        assert(selected@ =~= selected_seeds(vrf@, vrf_seed, total_stake, committee_size));
    }
    selected
}

/// Whether every claimed stake unit lies in `[0, stake)` and is selected.
pub open spec fn selection_valid(
    vrf: Seq<u8>,
    claimed: Set<u64>,
    stake: u64,
    total_stake: u64,
    committee_size: u64,
) -> bool {
    forall|s: u64| claimed.contains(s) ==> s < stake && seed_selected(vrf, s, total_stake, committee_size)
}

/// The outcomes that the verification of a claimed selection may have: it
/// succeeds exactly on a valid claim, and each error names a claimed stake
/// unit that is at fault in the way the error says. Which of two faulty
/// units is reported first is left open.
pub open spec fn selection_outcome(
    r: Result<(), CommitteeError>,
    vrf: Seq<u8>,
    claimed: Set<u64>,
    stake: u64,
    total_stake: u64,
    committee_size: u64,
) -> bool {
    &&& (r is Ok <==> selection_valid(vrf, claimed, stake, total_stake, committee_size))
    &&& (r == Err::<(), CommitteeError>(CommitteeError::InvaildVrfSeed) ==> exists|s: u64|
        claimed.contains(s) && s >= stake)
    &&& (r == Err::<(), CommitteeError>(CommitteeError::NotSelected) ==> exists|s: u64|
        claimed.contains(s) && s < stake && !seed_selected(vrf, s, total_stake, committee_size))
    &&& r != Err::<(), CommitteeError>(CommitteeError::IncorrectVrfSignature)
}

/// Verifies the participation of a VRF: each claimed stake unit must lie in
/// `[0, stake)` (else `InvaildVrfSeed`) and be selected (else `NotSelected`).
pub fn verify_selection(
    vrf: &CommitteeVrf,
    selected_vrf_seeds: HashSet<u64>,
    stake: u64,
    total_stake: u64,
    committee_size: u64,
) -> (r: Result<(), CommitteeError>)
    requires
        committee_size > 0,
    ensures
        selection_outcome(r, vrf@, selected_vrf_seeds@, stake, total_stake, committee_size),
{
    let ghost claimed = selected_vrf_seeds@;
    let ghost keys = vstd::std_specs::hash::spec_hash_keys_iter(&selected_vrf_seeds).remaining();
    proof {
        assert(keys.unref().to_set() == claimed);
    }
    for vrf_seed in it: selected_vrf_seeds.iter()
        invariant
            committee_size > 0,
            claimed == selected_vrf_seeds@,
            it.seq() == keys,
            keys.unref().to_set() == claimed,
            forall|j: int|
                0 <= j < it.index() ==> *#[trigger] keys[j] < stake && seed_selected(
                    vrf@,
                    *keys[j],
                    total_stake,
                    committee_size,
                ),
    {
        proof {
            assert(keys.unref()[it.index()] == *vrf_seed);
            assert(keys.unref().to_set().contains(*vrf_seed));
        }
        if *vrf_seed >= stake {
            return Err(CommitteeError::InvaildVrfSeed);
        }
        if !select_seeded_vrf(vrf, *vrf_seed, total_stake, committee_size) {
            return Err(CommitteeError::NotSelected);
        }
    }
    proof {
        assert forall|s: u64| claimed.contains(s) implies s < stake && seed_selected(
            vrf@,
            s,
            total_stake,
            committee_size,
        ) by {
            assert(keys.unref().to_set().contains(s));
            let j = choose|j: int| 0 <= j < keys.unref().len() && keys.unref()[j] == s;
            assert(*keys[j] == s);
        }
    }
    Ok(())
}

/// Selection soundness: verification accepts a claim exactly when every
/// claimed unit is one that `select_vrf` computes; a claim whose only faults
/// are units at or above the stake is rejected with `InvaildVrfSeed`, and one
/// whose only faults are unselected units below the stake with `NotSelected`.
pub proof fn lemma_selection_soundness(
    r: Result<(), CommitteeError>,
    vrf: Seq<u8>,
    claimed: Set<u64>,
    stake: u64,
    total_stake: u64,
    committee_size: u64,
)
    requires
        selection_outcome(r, vrf, claimed, stake, total_stake, committee_size),
    ensures
        r is Ok <==> claimed.subset_of(selected_seeds(vrf, stake, total_stake, committee_size)),
        (exists|s: u64| claimed.contains(s) && s >= stake) && (forall|s: u64|
            claimed.contains(s) && s < stake ==> seed_selected(vrf, s, total_stake, committee_size))
            ==> r == Err::<(), CommitteeError>(CommitteeError::InvaildVrfSeed),
        (exists|s: u64|
            claimed.contains(s) && s < stake && !seed_selected(vrf, s, total_stake, committee_size))
            && (forall|s: u64| claimed.contains(s) ==> s < stake) ==> r == Err::<(), CommitteeError>(
            CommitteeError::NotSelected,
        ),
{
    let valid = selection_valid(vrf, claimed, stake, total_stake, committee_size);
    if exists|s: u64| claimed.contains(s) && s >= stake {
        let s = choose|s: u64| claimed.contains(s) && s >= stake;
        assert(!valid);
        if forall|t: u64| claimed.contains(t) && t < stake ==> seed_selected(vrf, t, total_stake, committee_size) {
            if r == Err::<(), CommitteeError>(CommitteeError::NotSelected) {
                let t = choose|t: u64|
                    claimed.contains(t) && t < stake && !seed_selected(vrf, t, total_stake, committee_size);
                assert(seed_selected(vrf, t, total_stake, committee_size));
            }
            match r {
                Ok(_) => {},
                Err(e) => match e {
                    CommitteeError::InvaildVrfSeed => {},
                    _ => {},
                },
            }
        }
    }
    if exists|s: u64|
        claimed.contains(s) && s < stake && !seed_selected(vrf, s, total_stake, committee_size) {
        let s = choose|s: u64|
            claimed.contains(s) && s < stake && !seed_selected(vrf, s, total_stake, committee_size);
        assert(!valid);
        if forall|t: u64| claimed.contains(t) ==> t < stake {
            if r == Err::<(), CommitteeError>(CommitteeError::InvaildVrfSeed) {
                let t = choose|t: u64| claimed.contains(t) && t >= stake;
                assert(t < stake);
            }
            match r {
                Ok(_) => {},
                Err(e) => match e {
                    CommitteeError::NotSelected => {},
                    _ => {},
                },
            }
        }
    }
}

/// Whether index `i` of `members` holds the leader: a member whose selected
/// set is at least as large as every other one, and strictly larger than
/// those of all members after it (the last of equal maxima wins).
pub open spec fn is_leader_index(members: Seq<(u64, HashSet<u64>)>, i: int) -> bool {
    &&& 0 <= i < members.len()
    &&& forall|j: int| 0 <= j < members.len() ==> #[trigger] members[j].1@.len() <= members[i].1@.len()
    &&& forall|j: int| i < j < members.len() ==> #[trigger] members[j].1@.len() < members[i].1@.len()
}

/// Leader determinism: at most one index holds the leader, so the same list
/// always yields the same leader, ties included.
pub proof fn lemma_leader_unique(members: Seq<(u64, HashSet<u64>)>, i: int, j: int)
    requires
        is_leader_index(members, i),
        is_leader_index(members, j),
    ensures
        i == j,
{
    if i < j {
        assert(members[j].1@.len() < members[i].1@.len());
    } else if j < i {
        assert(members[i].1@.len() < members[j].1@.len());
    }
}

/// Gets the leader's ID given a list of committee members, each with its
/// set of selected VRF seeds: the member with the most selected seeds, the
/// last one in the list among equals; `None` for an empty list.
pub fn get_leader(committee_members: &[(u64, HashSet<u64>)]) -> (r: Option<u64>)
    ensures
        committee_members@.len() == 0 ==> r is None,
        committee_members@.len() > 0 ==> exists|i: int|
            is_leader_index(committee_members@, i) && r == Some(committee_members@[i].0),
{
    let ghost m = committee_members@;
    let n = committee_members.len();
    if n == 0 {
        return None;
    }
    let mut best: usize = 0;
    let mut best_len: usize = committee_members[0].1.len();
    let mut k: usize = 1;
    while k < n
        invariant
            n == m.len(),
            m == committee_members@,
            1 <= k <= n,
            best < k,
            best_len == m[best as int].1@.len(),
            is_leader_index(m.take(k as int), best as int),
        decreases n - k,
    {
        let len_k = committee_members[k].1.len();
        if len_k >= best_len {
            best = k;
            best_len = len_k;
        }
        k = k + 1;
        assert(is_leader_index(m.take(k as int), best as int));
    }
    assert(m.take(n as int) =~= m);
    Some(committee_members[best].0)
}

} // verus!
