//! Proofs that a discrete logarithm is shared: that the key which signed a
//! blinded message is the one the mint advertises.

use crate::nuts::nut00::{BlindSignature, BlindSignatureDleq};
use crate::nuts::nut01::{PublicKey, SecretKey};
use crate::secp::{bytes_view, point_add, point_expand, point_mul, point_neg, point_negation, point_product, point_sum, point_uncompressed, public_of, public_point, random_secret, scalar_add, scalar_mul, scalar_product, scalar_sum, sha256, sha256_digest};
use crate::util::{bytes_eq, extend_bytes, hex_encode, hex_of};
use vstd::prelude::*;

verus! {

/// Why a proof of a shared discrete logarithm was not accepted.
#[derive(Clone, Copy, Debug, PartialEq, Eq, Structural)]
pub enum Error {
    /// The signature carries no proof.
    MissingDleqProof,
    /// The challenge is not the hash of what the response commits to.
    InvalidDleqProof,
    /// An operation on the curve failed.
    Secp256k1,
}

/// The hexadecimal text of the uncompressed form of a point, `None` where it
/// is no point.
pub open spec fn point_text(point: Seq<u8>) -> Option<Seq<u8>> {
    match point_uncompressed(point) {
        Some(bytes) => Some(hex_of(bytes)),
        None => None,
    }
}

/// The challenge `e = H(R1, R2, K, C_)`: the digest of the four points as
/// hexadecimal text of their uncompressed forms, one after the other.
pub open spec fn challenge(r1: Seq<u8>, r2: Seq<u8>, k: Seq<u8>, c: Seq<u8>) -> Option<Seq<u8>> {
    match (point_text(r1), point_text(r2), point_text(k), point_text(c)) {
        (Some(t1), Some(t2), Some(t3), Some(t4)) => Some(sha256_digest(t1 + t2 + t3 + t4)),
        _ => None,
    }
}

/// `x*P - y*Q` for a point `P` given as `x*P` already and a point `Q`.
pub open spec fn minus_product(left: Option<Seq<u8>>, q: Seq<u8>, y: Seq<u8>) -> Option<Seq<u8>> {
    match (left, point_product(q, y)) {
        (Some(l), Some(a)) => match point_negation(a) {
            Some(minus_a) => point_sum(l, minus_a),
            None => None,
        },
        _ => None,
    }
}

/// The first commitment that a proof stands for: `R1 = s*G - e*K`.
pub open spec fn commitment_one(e: Seq<u8>, s: Seq<u8>, k: Seq<u8>) -> Option<Seq<u8>> {
    minus_product(public_point(s), k, e)
}

/// The second commitment that a proof stands for: `R2 = s*B_ - e*C_`.
pub open spec fn commitment_two(e: Seq<u8>, s: Seq<u8>, b: Seq<u8>, c: Seq<u8>) -> Option<Seq<u8>> {
    minus_product(point_product(b, s), c, e)
}

/// What the check of a proof `(e, s)` gives for a blinded message `B_`, its
/// signature `C_` and the mint's key `K`.
pub open spec fn dleq_verdict(b: Seq<u8>, c: Seq<u8>, e: Seq<u8>, s: Seq<u8>, k: Seq<u8>) -> Result<
    (),
    Error,
> {
    match (commitment_one(e, s, k), commitment_two(e, s, b, c)) {
        (Some(r1), Some(r2)) => match challenge(r1, r2, k, c) {
            Some(hash) => if hash == e {
                Ok(())
            } else {
                Err(Error::InvalidDleqProof)
            },
            None => Err(Error::Secp256k1),
        },
        _ => Err(Error::Secp256k1),
    }
}

/// The proof that a nonce gives for the signature `C_ = k*B_`: the challenge
/// `e = H(r*G, r*B_, k*G, C_)` and the response `s = r + e*k`.
pub open spec fn dleq_of_nonce(nonce: Seq<u8>, c: Seq<u8>, b: Seq<u8>, k: Seq<u8>) -> Option<
    (Seq<u8>, Seq<u8>),
> {
    match (public_point(nonce), point_product(b, nonce), public_point(k)) {
        (Some(r1), Some(r2), Some(key)) => match challenge(r1, r2, key, c) {
            Some(e) => match scalar_product(e, k) {
                Some(ek) => match scalar_sum(nonce, ek) {
                    Some(s) => Some((e, s)),
                    None => None,
                },
                None => None,
            },
            None => None,
        },
        _ => None,
    }
}

/// Some nonce that is a secret key gives no proof for the signature `C_` of
/// `B_` under `k`: what lets the making of a proof with a random nonce fail.
pub open spec fn dleq_can_fail(c: Seq<u8>, b: Seq<u8>, k: Seq<u8>) -> bool {
    exists|nonce: Seq<u8>| public_point(nonce).is_some() && #[trigger] dleq_of_nonce(nonce, c, b, k).is_none()
}

/// The challenge of four points.
fn hash_e(r1: &[u8; 33], r2: &[u8; 33], k: &[u8; 33], c: &[u8; 33]) -> (e: Option<[u8; 32]>)
    ensures
        bytes_view(e) == challenge(r1@, r2@, k@, c@),
{
    let u1: [u8; 65] = point_expand(r1)?;
    let u2: [u8; 65] = point_expand(r2)?;
    let u3: [u8; 65] = point_expand(k)?;
    let u4: [u8; 65] = point_expand(c)?;
    let mut text: Vec<u8> = hex_encode(u1.as_slice());
    let t2: Vec<u8> = hex_encode(u2.as_slice());
    let t3: Vec<u8> = hex_encode(u3.as_slice());
    let t4: Vec<u8> = hex_encode(u4.as_slice());
    extend_bytes(&mut text, t2.as_slice());
    extend_bytes(&mut text, t3.as_slice());
    extend_bytes(&mut text, t4.as_slice());
    Some(sha256(text.as_slice()))
}

/// `left - y*Q`.
fn sub_product(left: Option<[u8; 33]>, q: &[u8; 33], y: &[u8; 32]) -> (r: Option<[u8; 33]>)
    ensures
        bytes_view(r) == minus_product(bytes_view(left), q@, y@),
{
    let l: [u8; 33] = left?;
    let a: [u8; 33] = point_mul(q, y)?;
    let minus_a: [u8; 33] = point_neg(&a)?;
    point_add(&l, &minus_a)
}

/// Checks the proof `(e, s)` that the key `K = k*G` signed `B_` into `C_`: with
/// `R1 = s*G - e*K` and `R2 = s*B_ - e*C_`, the challenge `e` must be
/// `H(R1, R2, K, C_)`.
pub fn verify_dleq(
    blinded_message: PublicKey,
    blinded_signature: PublicKey,
    e: &SecretKey,
    s: &SecretKey,
    mint_pubkey: PublicKey,
) -> (r: Result<(), Error>)
    ensures
        r == dleq_verdict(blinded_message@, blinded_signature@, e@, s@, mint_pubkey@),
{
    let r1: Option<[u8; 33]> = sub_product(public_of(&s.bytes), &mint_pubkey.bytes, &e.bytes);
    let r2: Option<[u8; 33]> = sub_product(
        point_mul(&blinded_message.bytes, &s.bytes),
        &blinded_signature.bytes,
        &e.bytes,
    );
    match (r1, r2) {
        (Some(r1), Some(r2)) => match hash_e(&r1, &r2, &mint_pubkey.bytes, &blinded_signature.bytes) {
            Some(hash) => {
                if bytes_eq(hash.as_slice(), e.bytes.as_slice()) {
                    Ok(())
                } else {
                    Err(Error::InvalidDleqProof)
                }
            },
            None => Err(Error::Secp256k1),
        },
        _ => Err(Error::Secp256k1),
    }
}

/// The proof that `nonce` gives for the signature `blinded_signature` of
/// `blinded_message` under `mint_secret_key`.
pub fn calculate_dleq_with_nonce(
    nonce: &SecretKey,
    blinded_signature: PublicKey,
    blinded_message: &PublicKey,
    mint_secret_key: &SecretKey,
) -> (r: Result<BlindSignatureDleq, Error>)
    ensures
        match r {
            Ok(d) => dleq_of_nonce(nonce@, blinded_signature@, blinded_message@, mint_secret_key@)
                == Some((d.e@, d.s@)),
            Err(e) => e == Error::Secp256k1 && dleq_of_nonce(
                nonce@,
                blinded_signature@,
                blinded_message@,
                mint_secret_key@,
            ).is_none(),
        },
{
    let r1: [u8; 33] = match public_of(&nonce.bytes) {
        Some(p) => p,
        None => {
            return Err(Error::Secp256k1);
        },
    };
    let r2: [u8; 33] = match point_mul(&blinded_message.bytes, &nonce.bytes) {
        Some(p) => p,
        None => {
            return Err(Error::Secp256k1);
        },
    };
    let key: [u8; 33] = match public_of(&mint_secret_key.bytes) {
        Some(p) => p,
        None => {
            return Err(Error::Secp256k1);
        },
    };
    let e: [u8; 32] = match hash_e(&r1, &r2, &key, &blinded_signature.bytes) {
        Some(e) => e,
        None => {
            return Err(Error::Secp256k1);
        },
    };
    let ek: [u8; 32] = match scalar_mul(&e, &mint_secret_key.bytes) {
        Some(x) => x,
        None => {
            return Err(Error::Secp256k1);
        },
    };
    let s: [u8; 32] = match scalar_add(&nonce.bytes, &ek) {
        Some(x) => x,
        None => {
            return Err(Error::Secp256k1);
        },
    };
    Ok(BlindSignatureDleq { e: SecretKey { bytes: e }, s: SecretKey { bytes: s } })
}

/// A proof for the signature `blinded_signature` of `blinded_message` under
/// `mint_secret_key`, made with a fresh random nonce: two calls differ. The
/// result is the proof of some nonce, or the error of the curve where the
/// nonce that was drawn, a secret key, gives no proof.
pub fn calculate_dleq(
    blinded_signature: PublicKey,
    blinded_message: &PublicKey,
    mint_secret_key: &SecretKey,
) -> (r: Result<BlindSignatureDleq, Error>)
    ensures
        match r {
            Ok(d) => exists|nonce: Seq<u8>|
                #[trigger] dleq_of_nonce(
                    nonce,
                    blinded_signature@,
                    blinded_message@,
                    mint_secret_key@,
                ) == Some((d.e@, d.s@)),
            Err(e) => e == Error::Secp256k1 && dleq_can_fail(
                blinded_signature@,
                blinded_message@,
                mint_secret_key@,
            ),
        },
{
    let nonce = SecretKey { bytes: random_secret() };
    let r = calculate_dleq_with_nonce(&nonce, blinded_signature, blinded_message, mint_secret_key);
    proof {
        if r.is_err() {
            assert(public_point(nonce@).is_some());
            assert(dleq_of_nonce(nonce@, blinded_signature@, blinded_message@, mint_secret_key@).is_none());
        }
    }
    r
}

impl BlindSignature {
    /// Checks the proof that the signature carries, for the blinded message
    /// that was signed and the mint's key for the amount.
    pub fn verify_dleq(&self, mint_pubkey: PublicKey, blinded_message: PublicKey) -> (r: Result<
        (),
        Error,
    >)
        ensures
            r == match self.dleq {
                Some(d) => dleq_verdict(blinded_message@, self.c@, d.e@, d.s@, mint_pubkey@),
                None => Err(Error::MissingDleqProof),
            },
    {
        match &self.dleq {
            Some(d) => verify_dleq(blinded_message, self.c, &d.e, &d.s, mint_pubkey),
            None => Err(Error::MissingDleqProof),
        }
    }

    /// Adds a proof, made with a fresh random nonce, that `mint_secretkey`
    /// signed `blinded_message` into this signature. Nothing else changes, and
    /// nothing at all on an error, which comes where the nonce that was drawn
    /// gives no proof.
    pub fn add_dleq_proof(&mut self, blinded_message: &PublicKey, mint_secretkey: &SecretKey) -> (r: Result<
        (),
        Error,
    >)
        ensures
            final(self).amount == old(self).amount,
            final(self).keyset_id == old(self).keyset_id,
            final(self).c == old(self).c,
            match r {
                Ok(()) => final(self).dleq matches Some(d) && exists|nonce: Seq<u8>|
                    #[trigger] dleq_of_nonce(nonce, old(self).c@, blinded_message@, mint_secretkey@)
                        == Some((d.e@, d.s@)),
                Err(e) => e == Error::Secp256k1 && final(self).dleq == old(self).dleq && dleq_can_fail(
                    old(self).c@,
                    blinded_message@,
                    mint_secretkey@,
                ),
            },
    {
        match calculate_dleq(self.c, blinded_message, mint_secretkey) {
            Ok(d) => {
                self.dleq = Some(d);
                Ok(())
            },
            Err(e) => Err(e),
        }
    }
}

} // verus!
