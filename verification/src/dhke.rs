//! Blind Diffie-Hellman key exchange: blinding, signing, unblinding and
//! verifying.

use crate::nuts::nut00::{BlindSignature, Proof, ProofDleq, Secret};
use crate::nuts::nut01::{key_for, Keys, PublicKey, SecretKey};
use crate::secp::{is_point, point_add, point_mul, point_neg, point_negation, point_parses, point_product, point_sum, public_of, public_point, sha256, sha256_digest};
use crate::util::extend_bytes;
use vstd::prelude::*;

verus! {

/// Why a step of the key exchange failed.
#[derive(Clone, Copy, Debug, PartialEq, Eq, Structural)]
pub enum Error {
    /// No counter below 2^16 maps the message to a point.
    NoValidPoint,
    /// An operation on the curve failed: an argument was no point or no
    /// scalar, or the result was the point at infinity.
    Secp256k1,
    /// The signature is not the one that the key gives.
    TokenNotVerified,
    /// Signatures, blinding factors and secrets do not match one for one, or
    /// the keyset has no key for the amount of a signature.
    CouldNotGetProofs,
}

/// The bytes of the text `Secp256k1_HashToCurve_Cashu_`, which separates this
/// use of the hash from others.
pub open spec fn domain_separator() -> Seq<u8> {
    seq![
        0x53u8, 0x65, 0x63, 0x70, 0x32, 0x35, 0x36, 0x6b, 0x31, 0x5f, 0x48, 0x61, 0x73, 0x68, 0x54,
        0x6f, 0x43, 0x75, 0x72, 0x76, 0x65, 0x5f, 0x43, 0x61, 0x73, 0x68, 0x75, 0x5f,
    ]
}

/// The four bytes of a counter, least significant first.
pub open spec fn le_bytes(counter: u32) -> Seq<u8> {
    seq![
        (counter % 256) as u8,
        (counter / 256 % 256) as u8,
        (counter / 65536 % 256) as u8,
        (counter / 16777216) as u8,
    ]
}

/// What a counter proposes as a point: the byte 2 and the digest of the
/// message hash with the counter.
pub open spec fn candidate(msg_hash: Seq<u8>, counter: u32) -> Seq<u8> {
    seq![2u8] + sha256_digest(msg_hash + le_bytes(counter))
}

/// The proposal of the first counter from `from` up to 2^16 that is a point.
pub open spec fn first_point(msg_hash: Seq<u8>, from: nat) -> Option<Seq<u8>>
    decreases 65536 - from,
{
    if from >= 65536 {
        None
    } else if is_point(candidate(msg_hash, from as u32)) {
        Some(candidate(msg_hash, from as u32))
    } else {
        first_point(msg_hash, from + 1)
    }
}

/// The point that a message is hashed to.
pub open spec fn curve_point(message: Seq<u8>) -> Option<Seq<u8>> {
    first_point(sha256_digest(domain_separator() + message), 0)
}

/// The blinded message `B_ = Y + r*G` of a secret, where `Y` is the point of
/// the secret.
pub open spec fn blinded(secret: Seq<u8>, r: Seq<u8>) -> Result<Seq<u8>, Error> {
    match curve_point(secret) {
        None => Err(Error::NoValidPoint),
        Some(y) => match public_point(r) {
            None => Err(Error::Secp256k1),
            Some(rg) => match point_sum(y, rg) {
                None => Err(Error::Secp256k1),
                Some(b) => Ok(b),
            },
        },
    }
}

/// The blind signature `C_ = k*B_`.
pub open spec fn signed(k: Seq<u8>, blinded_message: Seq<u8>) -> Result<Seq<u8>, Error> {
    match point_product(blinded_message, k) {
        None => Err(Error::Secp256k1),
        Some(c) => Ok(c),
    }
}

/// The unblinded signature `C = C_ - r*K`.
pub open spec fn unblinded(blinded_key: Seq<u8>, r: Seq<u8>, mint_pubkey: Seq<u8>) -> Result<
    Seq<u8>,
    Error,
> {
    match point_product(mint_pubkey, r) {
        None => Err(Error::Secp256k1),
        Some(a) => match point_negation(a) {
            None => Err(Error::Secp256k1),
            Some(minus_a) => match point_sum(blinded_key, minus_a) {
                None => Err(Error::Secp256k1),
                Some(c) => Ok(c),
            },
        },
    }
}

/// Whether `c` is the signature `k*Y` on a message with the point `Y`.
pub open spec fn message_verdict(k: Seq<u8>, c: Seq<u8>, msg: Seq<u8>) -> Result<(), Error> {
    match curve_point(msg) {
        None => Err(Error::NoValidPoint),
        Some(y) => match point_product(y, k) {
            None => Err(Error::Secp256k1),
            Some(expected) => if expected == c {
                Ok(())
            } else {
                Err(Error::TokenNotVerified)
            },
        },
    }
}

/// A result with the bytes of its key.
pub open spec fn key_view(r: Result<PublicKey, Error>) -> Result<Seq<u8>, Error> {
    match r {
        Ok(key) => Ok(key@),
        Err(e) => Err(e),
    }
}

/// The bytes of the domain separator.
fn separator() -> (bytes: [u8; 28])
    ensures
        bytes@ == domain_separator(),
{
    let bytes: [u8; 28] = [
        0x53, 0x65, 0x63, 0x70, 0x32, 0x35, 0x36, 0x6b, 0x31, 0x5f, 0x48, 0x61, 0x73, 0x68, 0x54, 0x6f,
        0x43, 0x75, 0x72, 0x76, 0x65, 0x5f, 0x43, 0x61, 0x73, 0x68, 0x75, 0x5f,
    ];
    proof {
        assert(bytes@ =~= domain_separator());
    }
    bytes
}

/// The proposal of a counter.
fn candidate_of(msg_hash: &[u8; 32], counter: u32) -> (bytes: [u8; 33])
    ensures
        bytes@ == candidate(msg_hash@, counter),
{
    let mut input: Vec<u8> = Vec::new();
    extend_bytes(&mut input, msg_hash.as_slice());
    input.push((counter % 256) as u8);
    input.push((counter / 256 % 256) as u8);
    input.push((counter / 65536 % 256) as u8);
    input.push((counter / 16777216) as u8);
    proof {
        assert(input@ =~= msg_hash@ + le_bytes(counter));
    }
    let digest: [u8; 32] = sha256(input.as_slice());
    let mut bytes: [u8; 33] = [0u8; 33];
    bytes[0] = 2;
    let mut i: usize = 0;
    while i < 32
        invariant
            i <= 32,
            bytes@[0] == 2,
            forall|k: int| 0 <= k < i ==> bytes@[k + 1] == digest@[k],
        decreases 32 - i,
    {
        bytes[i + 1] = digest[i];
        i = i + 1;
    }
    proof {
        assert(bytes@ =~= seq![2u8] + digest@);
    }
    bytes
}

/// Maps a message to a point of the curve: the first proposal that is one, the
/// counter running from zero.
pub fn hash_to_curve(message: &[u8]) -> (r: Result<PublicKey, Error>)
    ensures
        match r {
            Ok(point) => curve_point(message@) == Some(point@),
            Err(e) => e == Error::NoValidPoint && curve_point(message@).is_none(),
        },
{
    let mut input: Vec<u8> = Vec::new();
    let tag: [u8; 28] = separator();
    extend_bytes(&mut input, tag.as_slice());
    extend_bytes(&mut input, message);
    proof {
        assert(input@ =~= domain_separator() + message@);
    }
    let msg_hash: [u8; 32] = sha256(input.as_slice());
    let mut counter: u32 = 0;
    while counter < 65536
        invariant
            counter <= 65536,
            msg_hash@ == sha256_digest(domain_separator() + message@),
            curve_point(message@) == first_point(msg_hash@, counter as nat),
        decreases 65536 - counter,
    {
        let bytes: [u8; 33] = candidate_of(&msg_hash, counter);
        if point_parses(&bytes) {
            return Ok(PublicKey { bytes });
        }
        counter = counter + 1;
    }
    Err(Error::NoValidPoint)
}

/// The blinding of a secret with a random factor can fail with the error `e`:
/// the secret has no point on the curve; or it has one, and some factor that
/// is a secret key does not blind it.
pub open spec fn blinding_can_fail(e: Error, secret: Seq<u8>) -> bool {
    if curve_point(secret).is_none() {
        e == Error::NoValidPoint
    } else {
        e == Error::Secp256k1 && exists|factor: Seq<u8>|
            public_point(factor).is_some() && (#[trigger] blinded(secret, factor)).is_err()
    }
}

/// Blinds a secret: `B_ = Y + r*G`. Without a blinding factor a fresh random
/// one, a secret key, is drawn; the factor that was used comes back with the
/// blinded message.
pub fn blind_message(secret: &[u8], blinding_factor: Option<SecretKey>) -> (r: Result<
    (PublicKey, SecretKey),
    Error,
>)
    ensures
        match r {
            Ok((b, factor)) => blinded(secret@, factor@) == Ok::<Seq<u8>, Error>(b@) && (
            blinding_factor matches Some(given) ==> factor == given),
            Err(e) => match blinding_factor {
                Some(given) => blinded(secret@, given@) == Err::<Seq<u8>, Error>(e),
                None => blinding_can_fail(e, secret@),
            },
        },
{
    let y: PublicKey = match hash_to_curve(secret) {
        Ok(y) => y,
        Err(e) => {
            return Err(e);
        },
    };
    let factor: SecretKey = match blinding_factor {
        Some(given) => given,
        None => SecretKey::generate(),
    };
    let rg: [u8; 33] = match public_of(&factor.bytes) {
        Some(rg) => rg,
        None => {
            return Err(Error::Secp256k1);
        },
    };
    match point_add(&y.bytes, &rg) {
        Some(bytes) => Ok((PublicKey { bytes }, factor)),
        None => {
            proof {
                assert(public_point(factor@).is_some());
                assert(blinded(secret@, factor@).is_err());
            }
            Err(Error::Secp256k1)
        },
    }
}

/// Unblinds a signature: `C = C_ - r*K`, where `K` is the mint's public key
/// for the amount.
pub fn unblind_message(blinded_key: &PublicKey, r: &SecretKey, mint_pubkey: &PublicKey) -> (c: Result<
    PublicKey,
    Error,
>)
    ensures
        key_view(c) == unblinded(blinded_key@, r@, mint_pubkey@),
{
    let a: [u8; 33] = match point_mul(&mint_pubkey.bytes, &r.bytes) {
        Some(a) => a,
        None => {
            return Err(Error::Secp256k1);
        },
    };
    let minus_a: [u8; 33] = match point_neg(&a) {
        Some(m) => m,
        None => {
            return Err(Error::Secp256k1);
        },
    };
    match point_add(&blinded_key.bytes, &minus_a) {
        Some(bytes) => Ok(PublicKey { bytes }),
        None => Err(Error::Secp256k1),
    }
}

/// Signs a blinded message: `C_ = k*B_`.
pub fn sign_message(k: &SecretKey, blinded_message: &PublicKey) -> (c: Result<PublicKey, Error>)
    ensures
        key_view(c) == signed(k@, blinded_message@),
{
    match point_mul(&blinded_message.bytes, &k.bytes) {
        Some(bytes) => Ok(PublicKey { bytes }),
        None => Err(Error::Secp256k1),
    }
}

/// Checks that `unblinded_message` is the signature `k*Y` on `msg`.
pub fn verify_message(k: &SecretKey, unblinded_message: PublicKey, msg: &[u8]) -> (r: Result<
    (),
    Error,
>)
    ensures
        r == message_verdict(k@, unblinded_message@, msg@),
{
    let y: PublicKey = match hash_to_curve(msg) {
        Ok(y) => y,
        Err(e) => {
            return Err(e);
        },
    };
    match point_mul(&y.bytes, &k.bytes) {
        Some(bytes) => {
            let expected = PublicKey { bytes };
            if expected == unblinded_message {
                Ok(())
            } else {
                Err(Error::TokenNotVerified)
            }
        },
        None => Err(Error::Secp256k1),
    }
}

/// What stands in the way of the proof for one signature, if anything.
pub open spec fn proof_failure(promise: BlindSignature, r: SecretKey, keys: Seq<(u64, PublicKey)>) -> Option<
    Error,
> {
    match key_for(keys, promise.amount.0) {
        None => Some(Error::CouldNotGetProofs),
        Some(key) => match unblinded(promise.c@, r@, key@) {
            Err(e) => Some(e),
            Ok(_) => None,
        },
    }
}

/// `proof` is the proof that a signature, a blinding factor and a secret give
/// under a table of keys.
pub open spec fn is_proof_of(
    proof: Proof,
    promise: BlindSignature,
    r: SecretKey,
    secret: Secret,
    keys: Seq<(u64, PublicKey)>,
) -> bool {
    &&& proof.amount == promise.amount
    &&& proof.keyset_id == promise.keyset_id
    &&& proof.secret@ == secret@
    &&& key_for(keys, promise.amount.0) matches Some(key) && unblinded(promise.c@, r@, key@) == Ok::<
        Seq<u8>,
        Error,
    >(proof.c@)
    &&& proof.witness.is_none()
    &&& match promise.dleq {
        Some(d) => proof.dleq == Some(ProofDleq { e: d.e, s: d.s, r }),
        None => proof.dleq.is_none(),
    }
}

/// The error of the first of the first `n` signatures that gives no proof.
pub open spec fn first_failure(
    promises: Seq<BlindSignature>,
    rs: Seq<SecretKey>,
    keys: Seq<(u64, PublicKey)>,
    n: int,
) -> Option<Error>
    decreases n,
{
    if n <= 0 {
        None
    } else {
        match first_failure(promises, rs, keys, n - 1) {
            Some(e) => Some(e),
            None => proof_failure(promises[n - 1], rs[n - 1], keys),
        }
    }
}

/// Makes the proofs of a mint's signatures: each signature is unblinded with
/// its blinding factor under the key for its amount and joined with its secret.
///
/// The three lists must match one for one.
pub fn construct_proofs(
    promises: Vec<BlindSignature>,
    rs: Vec<SecretKey>,
    secrets: Vec<Secret>,
    keys: &Keys,
) -> (r: Result<Vec<Proof>, Error>)
    ensures
        promises@.len() != rs@.len() || promises@.len() != secrets@.len() ==> r == Err::<
            Vec<Proof>,
            Error,
        >(Error::CouldNotGetProofs),
        promises@.len() == rs@.len() && promises@.len() == secrets@.len() ==> match r {
            Ok(proofs) => {
                &&& first_failure(promises@, rs@, keys@, promises@.len() as int).is_none()
                &&& proofs@.len() == promises@.len()
                &&& forall|i: int|
                    0 <= i < proofs@.len() ==> is_proof_of(
                        #[trigger] proofs@[i],
                        promises@[i],
                        rs@[i],
                        secrets@[i],
                        keys@,
                    )
            },
            Err(e) => first_failure(promises@, rs@, keys@, promises@.len() as int) == Some(e),
        },
{
    if promises.len() != rs.len() || promises.len() != secrets.len() {
        return Err(Error::CouldNotGetProofs);
    }
    let mut proofs: Vec<Proof> = Vec::new();
    let mut i: usize = 0;
    while i < promises.len()
        invariant
            i <= promises.len(),
            promises@.len() == rs@.len(),
            promises@.len() == secrets@.len(),
            proofs@.len() == i,
            first_failure(promises@, rs@, keys@, i as int).is_none(),
            forall|k: int|
                0 <= k < i ==> is_proof_of(
                    #[trigger] proofs@[k],
                    promises@[k],
                    rs@[k],
                    secrets@[k],
                    keys@,
                ),
        decreases promises.len() - i,
    {
        let promise: BlindSignature = promises[i];
        let factor: SecretKey = rs[i];
        let key: PublicKey = match keys.amount_key(promise.amount.0) {
            Some(key) => key,
            None => {
                proof {
                    lemma_first_failure_stays(promises@, rs@, keys@, i + 1, promises@.len() as int);
                }
                return Err(Error::CouldNotGetProofs);
            },
        };
        let c: PublicKey = match unblind_message(&promise.c, &factor, &key) {
            Ok(c) => c,
            Err(e) => {
                proof {
                    lemma_first_failure_stays(promises@, rs@, keys@, i + 1, promises@.len() as int);
                }
                return Err(e);
            },
        };
        let dleq: Option<ProofDleq> = match promise.dleq {
            Some(d) => Some(ProofDleq { e: d.e, s: d.s, r: factor }),
            None => None,
        };
        proofs.push(
            Proof {
                amount: promise.amount,
                keyset_id: promise.keyset_id,
                secret: secrets[i].clone(),
                c,
                witness: None,
                dleq,
            },
        );
        i = i + 1;
    }
    Ok(proofs)
}

/// A failure among the first `n` signatures is the failure among any more.
proof fn lemma_first_failure_stays(
    promises: Seq<BlindSignature>,
    rs: Seq<SecretKey>,
    keys: Seq<(u64, PublicKey)>,
    n: int,
    m: int,
)
    requires
        0 <= n <= m,
        first_failure(promises, rs, keys, n).is_some(),
    ensures
        first_failure(promises, rs, keys, m) == first_failure(promises, rs, keys, n),
    decreases m - n,
{
    if n < m {
        lemma_first_failure_stays(promises, rs, keys, n, m - 1);
    }
}

} // verus!
