//! The curve secp256k1, SHA-256 and BIP-32 key derivation, as the `bitcoin`
//! crate computes them. Points travel as their 33-byte compressed form and
//! scalars as 32 bytes, most significant first.
//!
//! Nothing in this file is proved: each function states what the call inside it
//! returns, under a name where the value takes pages to write down.

use vstd::prelude::*;

verus! {

/// The view of an optional byte array.
pub open spec fn bytes_view<const N: usize>(r: Option<[u8; N]>) -> Option<Seq<u8>> {
    match r {
        Some(a) => Some(a@),
        None => None,
    }
}

/// The SHA-256 digest of `data`.
pub uninterp spec fn sha256_digest(data: Seq<u8>) -> Seq<u8>;

/// Whether `bytes` is the compressed form of a point of the curve.
pub uninterp spec fn is_point(bytes: Seq<u8>) -> bool;

/// The sum of two points, `None` where one of them is no point or the sum is
/// the point at infinity.
pub uninterp spec fn point_sum(a: Seq<u8>, b: Seq<u8>) -> Option<Seq<u8>>;

/// A point multiplied by a scalar, `None` where the point is no point, the
/// scalar is not below the curve order or the product is the point at infinity.
pub uninterp spec fn point_product(point: Seq<u8>, scalar: Seq<u8>) -> Option<Seq<u8>>;

/// The negation of a point, `None` where it is no point.
pub uninterp spec fn point_negation(point: Seq<u8>) -> Option<Seq<u8>>;

/// The 65-byte uncompressed form of a point, `None` where it is no point.
pub uninterp spec fn point_uncompressed(point: Seq<u8>) -> Option<Seq<u8>>;

/// The public key of a secret key: the generator multiplied by it. `None`
/// where the scalar is no secret key (zero, or not below the curve order).
pub uninterp spec fn public_point(secret: Seq<u8>) -> Option<Seq<u8>>;

/// The sum of a secret key and a scalar modulo the curve order, `None` where
/// either is out of range or the sum is zero.
pub uninterp spec fn scalar_sum(secret: Seq<u8>, tweak: Seq<u8>) -> Option<Seq<u8>>;

/// The product of a secret key and a scalar modulo the curve order, `None`
/// where either is out of range or the product is zero.
pub uninterp spec fn scalar_product(secret: Seq<u8>, tweak: Seq<u8>) -> Option<Seq<u8>>;

/// Whether `signature` is a BIP-340 signature of the 32-byte `digest` under
/// the x coordinate of the point `key`.
pub uninterp spec fn schnorr_valid(key: Seq<u8>, digest: Seq<u8>, signature: Seq<u8>) -> bool;

/// The secret key at `path` below the BIP-32 master key of `seed`. Each element
/// of `path` is a child number as BIP-32 serialises it: the index, with the top
/// bit set for a hardened child.
pub uninterp spec fn bip32_secret(seed: Seq<u8>, path: Seq<u32>) -> Option<Seq<u8>>;

/// `bitcoin::hashes::sha256::Hash::hash`, with the digest taken out by
/// `to_byte_array`: the SHA-256 digest of `data`.
#[verifier::external_body]
pub(crate) fn sha256(data: &[u8]) -> (digest: [u8; 32])
    ensures
        digest@ == sha256_digest(data@),
{
    let digest = <bitcoin::hashes::sha256::Hash as bitcoin::hashes::Hash>::hash(data);
    bitcoin::hashes::Hash::to_byte_array(digest)
}

/// `secp256k1::PublicKey::from_slice`: whether the bytes parse as a point.
#[verifier::external_body]
pub(crate) fn point_parses(bytes: &[u8; 33]) -> (ok: bool)
    ensures
        ok == is_point(bytes@),
{
    bitcoin::secp256k1::PublicKey::from_slice(bytes).is_ok()
}

/// `secp256k1::PublicKey::combine`: the sum of two points. It fails where an
/// argument does not parse or the sum is the point at infinity.
#[verifier::external_body]
pub(crate) fn point_add(a: &[u8; 33], b: &[u8; 33]) -> (r: Option<[u8; 33]>)
    ensures
        bytes_view(r) == point_sum(a@, b@),
{
    let a = bitcoin::secp256k1::PublicKey::from_slice(a).ok()?;
    let b = bitcoin::secp256k1::PublicKey::from_slice(b).ok()?;
    a.combine(&b).ok().map(|sum| sum.serialize())
}

/// `secp256k1::PublicKey::mul_tweak`: a point multiplied by a scalar. It fails
/// where the point does not parse, `Scalar::from_be_bytes` refuses the scalar,
/// or the product is the point at infinity.
#[verifier::external_body]
pub(crate) fn point_mul(point: &[u8; 33], scalar: &[u8; 32]) -> (r: Option<[u8; 33]>)
    ensures
        bytes_view(r) == point_product(point@, scalar@),
{
    let secp = bitcoin::secp256k1::Secp256k1::verification_only();
    let point = bitcoin::secp256k1::PublicKey::from_slice(point).ok()?;
    let scalar = bitcoin::secp256k1::Scalar::from_be_bytes(*scalar).ok()?;
    point.mul_tweak(&secp, &scalar).ok().map(|product| product.serialize())
}

/// `secp256k1::PublicKey::negate`: the negation of a point. It fails where the
/// point does not parse.
#[verifier::external_body]
pub(crate) fn point_neg(point: &[u8; 33]) -> (r: Option<[u8; 33]>)
    ensures
        bytes_view(r) == point_negation(point@),
{
    let secp = bitcoin::secp256k1::Secp256k1::verification_only();
    let point = bitcoin::secp256k1::PublicKey::from_slice(point).ok()?;
    Some(point.negate(&secp).serialize())
}

/// `secp256k1::PublicKey::serialize_uncompressed`: the 65-byte form of a
/// point. It fails where the point does not parse.
#[verifier::external_body]
pub(crate) fn point_expand(point: &[u8; 33]) -> (r: Option<[u8; 65]>)
    ensures
        bytes_view(r) == point_uncompressed(point@),
{
    let point = bitcoin::secp256k1::PublicKey::from_slice(point).ok()?;
    Some(point.serialize_uncompressed())
}

/// `secp256k1::PublicKey::from_secret_key`: the public key of a secret key. It
/// fails where `SecretKey::from_slice` refuses the bytes.
#[verifier::external_body]
pub(crate) fn public_of(secret: &[u8; 32]) -> (r: Option<[u8; 33]>)
    ensures
        bytes_view(r) == public_point(secret@),
{
    let secp = bitcoin::secp256k1::Secp256k1::signing_only();
    let secret = bitcoin::secp256k1::SecretKey::from_slice(secret).ok()?;
    Some(bitcoin::secp256k1::PublicKey::from_secret_key(&secp, &secret).serialize())
}

/// `secp256k1::SecretKey::add_tweak`: a secret key plus a scalar, modulo the
/// curve order. It fails where either does not parse or the sum is zero.
#[verifier::external_body]
pub(crate) fn scalar_add(secret: &[u8; 32], tweak: &[u8; 32]) -> (r: Option<[u8; 32]>)
    ensures
        bytes_view(r) == scalar_sum(secret@, tweak@),
{
    let secret = bitcoin::secp256k1::SecretKey::from_slice(secret).ok()?;
    let tweak = bitcoin::secp256k1::Scalar::from_be_bytes(*tweak).ok()?;
    secret.add_tweak(&tweak).ok().map(|sum| sum.secret_bytes())
}

/// `secp256k1::SecretKey::mul_tweak`: a secret key times a scalar, modulo the
/// curve order. It fails where either does not parse or the product is zero.
#[verifier::external_body]
pub(crate) fn scalar_mul(secret: &[u8; 32], tweak: &[u8; 32]) -> (r: Option<[u8; 32]>)
    ensures
        bytes_view(r) == scalar_product(secret@, tweak@),
{
    let secret = bitcoin::secp256k1::SecretKey::from_slice(secret).ok()?;
    let tweak = bitcoin::secp256k1::Scalar::from_be_bytes(*tweak).ok()?;
    secret.mul_tweak(&tweak).ok().map(|product| product.secret_bytes())
}

/// `secp256k1::SecretKey::new` with the thread's random number generator: a
/// fresh secret key. The key is random; what holds of every outcome is that it
/// is a secret key, so it has a public key.
#[verifier::external_body]
pub(crate) fn random_secret() -> (secret: [u8; 32])
    ensures
        public_point(secret@).is_some(),
{
    bitcoin::secp256k1::SecretKey::new(&mut bitcoin::secp256k1::rand::thread_rng()).secret_bytes()
}

/// `secp256k1::Secp256k1::sign_schnorr`: a BIP-340 signature of `digest` under
/// `secret`, made with fresh auxiliary randomness, so that two calls differ.
/// It fails exactly where `secret` is no secret key. What holds of every
/// outcome is that it is a signature: it verifies under the public key of
/// `secret`.
#[verifier::external_body]
pub(crate) fn schnorr_sign(secret: &[u8; 32], digest: &[u8; 32]) -> (r: Option<[u8; 64]>)
    ensures
        r.is_some() == public_point(secret@).is_some(),
        r matches Some(signature) ==> schnorr_valid(
            public_point(secret@).unwrap(),
            digest@,
            signature@,
        ),
{
    let secp = bitcoin::secp256k1::Secp256k1::signing_only();
    let pair = bitcoin::secp256k1::Keypair::from_seckey_slice(&secp, secret).ok()?;
    let message = bitcoin::secp256k1::Message::from_digest(*digest);
    Some(secp.sign_schnorr(&message, &pair).serialize())
}

/// `secp256k1::Secp256k1::verify_schnorr`: whether `signature` is a BIP-340
/// signature of `digest` under the x coordinate of `key`. A key that does not
/// parse verifies nothing.
#[verifier::external_body]
pub(crate) fn schnorr_verify(key: &[u8; 33], digest: &[u8; 32], signature: &[u8; 64]) -> (ok: bool)
    ensures
        ok == schnorr_valid(key@, digest@, signature@),
{
    let secp = bitcoin::secp256k1::Secp256k1::verification_only();
    let key = match bitcoin::secp256k1::PublicKey::from_slice(key) {
        Ok(key) => key.x_only_public_key().0,
        Err(_) => return false,
    };
    let signature = match bitcoin::secp256k1::schnorr::Signature::from_slice(signature) {
        Ok(signature) => signature,
        Err(_) => return false,
    };
    let message = bitcoin::secp256k1::Message::from_digest(*digest);
    secp.verify_schnorr(&signature, &message, &key).is_ok()
}

/// `bitcoin::bip32::Xpriv::derive_priv` on the master key that
/// `Xpriv::new_master` makes of `seed`: the secret key at `path`. It fails
/// where the seed gives no master key or the path has more than 255 steps.
/// The crate stops the program where a step of the derivation gives no key,
/// which its source calls statistically impossible.
#[verifier::external_body]
pub(crate) fn bip32_derive(seed: &[u8], path: &Vec<u32>) -> (r: Option<[u8; 32]>)
    ensures
        bytes_view(r) == bip32_secret(seed@, path@),
{
    let secp = bitcoin::secp256k1::Secp256k1::signing_only();
    let master = bitcoin::bip32::Xpriv::new_master(bitcoin::NetworkKind::Main, seed).ok()?;
    let path: Vec<bitcoin::bip32::ChildNumber> = path.iter().map(|n| (*n).into()).collect();
    master.derive_priv(&secp, &path).ok().map(|key| key.private_key.secret_bytes())
}

} // verus!
