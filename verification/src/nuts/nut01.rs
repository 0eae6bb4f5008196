//! Public and secret keys, and the keys of a keyset by amount.

use crate::secp::{is_point, point_parses, public_of, public_point, random_secret, schnorr_sign, schnorr_valid, schnorr_verify, sha256, sha256_digest};
use crate::util::{ascii_chars, ascii_string, bytes_eq, hex_decode, hex_encode, hex_of, is_hex, unhex};
use vstd::prelude::*;
use vstd::string::StringSliceAdditionalSpecFns;

verus! {

/// Why a key or a signature was refused.
#[derive(Clone, Copy, Debug, PartialEq, Eq, Structural)]
pub enum Error {
    /// The text is no hexadecimal text of whole bytes.
    InvalidHex,
    /// A public key has 33 bytes.
    InvalidPublicKeySize,
    /// The bytes are no point of the curve.
    InvalidPublicKey,
    /// A secret key has 32 bytes.
    InvalidSecretKeySize,
    /// The bytes are no secret key: zero, or not below the curve order.
    InvalidSecretKey,
    /// A signature has 64 bytes.
    InvalidSignatureSize,
    /// The signature does not verify.
    InvalidSignature,
    /// The amounts of a table of keys do not ascend.
    KeysNotAscending,
}

/// A point of the curve in its compressed form.
///
/// The bytes are held as they are; [`PublicKey::valid`] says whether they are
/// a point, and the constructors other than the literal admit only points.
#[derive(Clone, Copy, Debug, Eq, Hash, PartialOrd, Ord)]
pub struct PublicKey {
    pub bytes: [u8; 33],
}

/// A scalar that serves as secret key, most significant byte first.
#[derive(Clone, Copy, Debug, Eq, Hash)]
pub struct SecretKey {
    pub bytes: [u8; 32],
}

impl View for PublicKey {
    type V = Seq<u8>;

    open spec fn view(&self) -> Seq<u8> {
        self.bytes@
    }
}

impl View for SecretKey {
    type V = Seq<u8>;

    open spec fn view(&self) -> Seq<u8> {
        self.bytes@
    }
}

impl PartialEq for PublicKey {
    fn eq(&self, other: &PublicKey) -> (r: bool) {
        bytes_eq(&self.bytes, &other.bytes)
    }
}

impl vstd::std_specs::cmp::PartialEqSpecImpl for PublicKey {
    open spec fn obeys_eq_spec() -> bool {
        true
    }

    open spec fn eq_spec(&self, other: &PublicKey) -> bool {
        self@ == other@
    }
}

impl PartialEq for SecretKey {
    fn eq(&self, other: &SecretKey) -> (r: bool) {
        bytes_eq(&self.bytes, &other.bytes)
    }
}

impl vstd::std_specs::cmp::PartialEqSpecImpl for SecretKey {
    open spec fn obeys_eq_spec() -> bool {
        true
    }

    open spec fn eq_spec(&self, other: &SecretKey) -> bool {
        self@ == other@
    }
}

/// The SHA-256 digest of a message, which is what is signed.
pub open spec fn signed_digest(msg: Seq<u8>) -> Seq<u8> {
    sha256_digest(msg)
}

/// Copies 33 bytes into an array.
fn array33(bytes: &[u8]) -> (a: [u8; 33])
    requires
        bytes@.len() == 33,
    ensures
        a@ == bytes@,
{
    let mut a: [u8; 33] = [0u8; 33];
    let mut i: usize = 0;
    while i < 33
        invariant
            i <= 33,
            bytes@.len() == 33,
            forall|k: int| 0 <= k < i ==> a@[k] == bytes@[k],
        decreases 33 - i,
    {
        a[i] = bytes[i];
        i = i + 1;
    }
    proof {
        assert(a@ =~= bytes@);
    }
    a
}

/// Copies 32 bytes into an array.
pub(crate) fn array32(bytes: &[u8]) -> (a: [u8; 32])
    requires
        bytes@.len() == 32,
    ensures
        a@ == bytes@,
{
    let mut a: [u8; 32] = [0u8; 32];
    let mut i: usize = 0;
    while i < 32
        invariant
            i <= 32,
            bytes@.len() == 32,
            forall|k: int| 0 <= k < i ==> a@[k] == bytes@[k],
        decreases 32 - i,
    {
        a[i] = bytes[i];
        i = i + 1;
    }
    proof {
        assert(a@ =~= bytes@);
    }
    a
}

/// Copies 64 bytes into an array.
pub(crate) fn array64(bytes: &[u8]) -> (a: [u8; 64])
    requires
        bytes@.len() == 64,
    ensures
        a@ == bytes@,
{
    let mut a: [u8; 64] = [0u8; 64];
    let mut i: usize = 0;
    while i < 64
        invariant
            i <= 64,
            bytes@.len() == 64,
            forall|k: int| 0 <= k < i ==> a@[k] == bytes@[k],
        decreases 64 - i,
    {
        a[i] = bytes[i];
        i = i + 1;
    }
    proof {
        assert(a@ =~= bytes@);
    }
    a
}

impl PublicKey {
    /// The bytes are a point of the curve.
    pub open spec fn valid(&self) -> bool {
        is_point(self@)
    }

    /// The key with these bytes: 33 of them, a point in compressed form.
    pub fn from_slice(bytes: &[u8]) -> (r: Result<PublicKey, Error>)
        ensures
            bytes@.len() != 33 ==> r == Err::<PublicKey, Error>(Error::InvalidPublicKeySize),
            bytes@.len() == 33 && !is_point(bytes@) ==> r == Err::<PublicKey, Error>(
                Error::InvalidPublicKey,
            ),
            bytes@.len() == 33 && is_point(bytes@) ==> (r matches Ok(key) && key@ == bytes@),
    {
        if bytes.len() != 33 {
            return Err(Error::InvalidPublicKeySize);
        }
        let key = PublicKey { bytes: array33(bytes) };
        if point_parses(&key.bytes) {
            Ok(key)
        } else {
            Err(Error::InvalidPublicKey)
        }
    }

    /// The key that 66 hexadecimal digits stand for.
    pub fn from_hex(hex: &str) -> (r: Result<PublicKey, Error>)
        ensures
            match r {
                Ok(key) => is_hex(hex.spec_bytes()) && key@ == unhex(hex.spec_bytes()) && key.valid(),
                Err(Error::InvalidHex) => !is_hex(hex.spec_bytes()),
                Err(Error::InvalidPublicKeySize) => is_hex(hex.spec_bytes()) && hex.spec_bytes().len()
                    != 66,
                Err(Error::InvalidPublicKey) => is_hex(hex.spec_bytes()) && hex.spec_bytes().len() == 66
                    && !is_point(unhex(hex.spec_bytes())),
                Err(_) => false,
            },
    {
        match hex_decode(hex.as_bytes()) {
            Some(bytes) => PublicKey::from_slice(bytes.as_slice()),
            None => Err(Error::InvalidHex),
        }
    }

    /// The 33 bytes of the key.
    pub fn to_bytes(&self) -> (bytes: [u8; 33])
        ensures
            bytes@ == self@,
    {
        self.bytes
    }

    /// The key as 66 lower-case hexadecimal digits, as ASCII codes.
    pub fn to_hex_bytes(&self) -> (hex: Vec<u8>)
        ensures
            hex@ == hex_of(self@),
    {
        hex_encode(self.bytes.as_slice())
    }

    /// The key as 66 lower-case hexadecimal digits.
    pub fn to_hex(&self) -> (hex: String)
        ensures
            hex@ == ascii_chars(hex_of(self@)),
    {
        ascii_string(hex_encode(self.bytes.as_slice()))
    }

    /// Checks a BIP-340 signature of the SHA-256 digest of `msg` under this key.
    pub fn verify(&self, msg: &[u8], signature: &[u8]) -> (r: Result<(), Error>)
        ensures
            signature@.len() != 64 ==> r == Err::<(), Error>(Error::InvalidSignatureSize),
            signature@.len() == 64 ==> (r.is_ok() <==> schnorr_valid(
                self@,
                signed_digest(msg@),
                signature@,
            )),
            signature@.len() == 64 && r.is_err() ==> r == Err::<(), Error>(Error::InvalidSignature),
    {
        if signature.len() != 64 {
            return Err(Error::InvalidSignatureSize);
        }
        let digest: [u8; 32] = sha256(msg);
        let signature: [u8; 64] = array64(signature);
        if schnorr_verify(&self.bytes, &digest, &signature) {
            Ok(())
        } else {
            Err(Error::InvalidSignature)
        }
    }
}

impl SecretKey {
    /// The bytes are a secret key: not zero and below the curve order.
    pub open spec fn valid(&self) -> bool {
        public_point(self@).is_some()
    }

    /// A fresh random secret key.
    pub fn generate() -> (key: SecretKey)
        ensures
            key.valid(),
    {
        SecretKey { bytes: random_secret() }
    }

    /// The key with these bytes: 32 of them, not zero and below the curve
    /// order.
    pub fn from_slice(bytes: &[u8]) -> (r: Result<SecretKey, Error>)
        ensures
            bytes@.len() != 32 ==> r == Err::<SecretKey, Error>(Error::InvalidSecretKeySize),
            bytes@.len() == 32 && public_point(bytes@).is_none() ==> r == Err::<SecretKey, Error>(
                Error::InvalidSecretKey,
            ),
            bytes@.len() == 32 && public_point(bytes@).is_some() ==> (r matches Ok(key) && key@
                == bytes@),
    {
        if bytes.len() != 32 {
            return Err(Error::InvalidSecretKeySize);
        }
        let key = SecretKey { bytes: array32(bytes) };
        match public_of(&key.bytes) {
            Some(_) => Ok(key),
            None => Err(Error::InvalidSecretKey),
        }
    }

    /// The key that 64 hexadecimal digits stand for.
    pub fn from_hex(hex: &str) -> (r: Result<SecretKey, Error>)
        ensures
            match r {
                Ok(key) => is_hex(hex.spec_bytes()) && key@ == unhex(hex.spec_bytes()) && key.valid(),
                Err(Error::InvalidHex) => !is_hex(hex.spec_bytes()),
                Err(Error::InvalidSecretKeySize) => is_hex(hex.spec_bytes()) && hex.spec_bytes().len()
                    != 64,
                Err(Error::InvalidSecretKey) => is_hex(hex.spec_bytes()) && hex.spec_bytes().len() == 64
                    && public_point(unhex(hex.spec_bytes())).is_none(),
                Err(_) => false,
            },
    {
        match hex_decode(hex.as_bytes()) {
            Some(bytes) => SecretKey::from_slice(bytes.as_slice()),
            None => Err(Error::InvalidHex),
        }
    }

    /// The 32 bytes of the key.
    pub fn to_secret_bytes(&self) -> (bytes: [u8; 32])
        ensures
            bytes@ == self@,
    {
        self.bytes
    }

    /// The key as 64 lower-case hexadecimal digits.
    pub fn to_secret_hex(&self) -> (hex: String)
        ensures
            hex@ == ascii_chars(hex_of(self@)),
    {
        ascii_string(hex_encode(self.bytes.as_slice()))
    }

    /// The public key of this secret key, or the error where the bytes are no
    /// secret key.
    pub fn public_key(&self) -> (r: Result<PublicKey, Error>)
        ensures
            match r {
                Ok(key) => public_point(self@) == Some(key@),
                Err(e) => e == Error::InvalidSecretKey && !self.valid(),
            },
    {
        match public_of(&self.bytes) {
            Some(bytes) => Ok(PublicKey { bytes }),
            None => Err(Error::InvalidSecretKey),
        }
    }

    /// A BIP-340 signature of the SHA-256 digest of `msg`, which verifies
    /// under the public key of this key. Each call draws fresh randomness, so
    /// two signatures of one message differ; it fails exactly where the bytes
    /// are no secret key.
    pub fn sign(&self, msg: &[u8]) -> (r: Result<[u8; 64], Error>)
        ensures
            r.is_ok() <==> self.valid(),
            r.is_err() ==> r == Err::<[u8; 64], Error>(Error::InvalidSecretKey),
            r matches Ok(signature) ==> schnorr_valid(
                public_point(self@).unwrap(),
                signed_digest(msg@),
                signature@,
            ),
    {
        let digest: [u8; 32] = sha256(msg);
        match schnorr_sign(&self.bytes, &digest) {
            Some(signature) => Ok(signature),
            None => Err(Error::InvalidSecretKey),
        }
    }
}

/// The public key of a keyset for each of its amounts, in ascending order of
/// amount.
#[derive(Debug, PartialEq, Eq)]
pub struct Keys {
    entries: Vec<(u64, PublicKey)>,
}

/// Each amount is larger than the one before it.
pub open spec fn ascending(entries: Seq<(u64, PublicKey)>) -> bool {
    forall|i: int, j: int| 0 <= i < j < entries.len() ==> entries[i].0 < entries[j].0
}

/// The key of the first entry for `amount`, if there is one.
pub open spec fn key_for(entries: Seq<(u64, PublicKey)>, amount: u64) -> Option<PublicKey>
    decreases entries.len(),
{
    if entries.len() == 0 {
        None
    } else if entries[0].0 == amount {
        Some(entries[0].1)
    } else {
        key_for(entries.drop_first(), amount)
    }
}

/// The amounts of the entries, in their order.
pub open spec fn amounts_of(entries: Seq<(u64, PublicKey)>) -> Seq<u64> {
    Seq::new(entries.len(), |i: int| entries[i].0)
}

impl View for Keys {
    type V = Seq<(u64, PublicKey)>;

    closed spec fn view(&self) -> Seq<(u64, PublicKey)> {
        self.entries@
    }
}

impl Keys {
    #[verifier::type_invariant]
    spec fn ordered(self) -> bool {
        ascending(self.entries@)
    }

    /// The table with these entries, which must come in ascending order of
    /// amount, each amount once.
    pub fn new(entries: Vec<(u64, PublicKey)>) -> (r: Result<Keys, Error>)
        ensures
            ascending(entries@) ==> (r matches Ok(keys) && keys@ == entries@),
            !ascending(entries@) ==> r == Err::<Keys, Error>(Error::KeysNotAscending),
    {
        let mut i: usize = 1;
        while i < entries.len()
            invariant
                1 <= i,
                forall|a: int, b: int| 0 <= a < b < i && b < entries.len() ==> entries@[a].0 < entries@[b].0,
            decreases entries.len() - i,
        {
            if entries[i - 1].0 >= entries[i].0 {
                return Err(Error::KeysNotAscending);
            }
            proof {
                assert forall|a: int, b: int| 0 <= a < b < i + 1 && b < entries.len() implies entries@[a].0
                    < entries@[b].0 by {
                    if b == i && a < i - 1 {
                        assert(entries@[a].0 < entries@[i - 1].0);
                    }
                }
            }
            i = i + 1;
        }
        Ok(Keys { entries })
    }

    /// The number of amounts that the table has a key for.
    pub fn len(&self) -> (n: usize)
        ensures
            n == self@.len(),
    {
        self.entries.len()
    }

    /// The entry at a position, counted from the smallest amount.
    pub fn entry(&self, i: usize) -> (e: (u64, PublicKey))
        requires
            i < self@.len(),
        ensures
            e == self@[i as int],
    {
        self.entries[i]
    }

    /// The key for an amount, if the table has one.
    pub fn amount_key(&self, amount: u64) -> (key: Option<PublicKey>)
        ensures
            key == key_for(self@, amount),
    {
        let mut i: usize = 0;
        proof {
            assert(self.entries@.skip(0) =~= self.entries@);
        }
        while i < self.entries.len()
            invariant
                i <= self.entries.len(),
                key_for(self.entries@, amount) == key_for(self.entries@.skip(i as int), amount),
            decreases self.entries.len() - i,
        {
            if self.entries[i].0 == amount {
                return Some(self.entries[i].1);
            }
            proof {
                assert(self.entries@.skip(i as int).drop_first() =~= self.entries@.skip(i + 1));
            }
            i = i + 1;
        }
        None
    }

    /// The amounts that the table has a key for, in ascending order.
    pub fn amounts(&self) -> (amounts: Vec<u64>)
        ensures
            amounts@ == amounts_of(self@),
    {
        let mut amounts: Vec<u64> = Vec::new();
        let mut i: usize = 0;
        while i < self.entries.len()
            invariant
                i <= self.entries.len(),
                amounts@ == amounts_of(self.entries@.take(i as int)),
            decreases self.entries.len() - i,
        {
            proof {
                assert(amounts@.push(self.entries@[i as int].0) =~= amounts_of(
                    self.entries@.take(i + 1),
                ));
            }
            amounts.push(self.entries[i].0);
            i = i + 1;
        }
        proof {
            assert(self.entries@.take(i as int) =~= self.entries@);
        }
        amounts
    }

    /// A copy of the table.
    pub fn copy(&self) -> (keys: Keys)
        ensures
            keys@ == self@,
    {
        proof {
            use_type_invariant(self);
        }
        let mut entries: Vec<(u64, PublicKey)> = Vec::new();
        let mut i: usize = 0;
        while i < self.entries.len()
            invariant
                i <= self.entries.len(),
                entries@ == self.entries@.take(i as int),
            decreases self.entries.len() - i,
        {
            proof {
                assert(self.entries@.take(i + 1) =~= self.entries@.take(i as int).push(
                    self.entries@[i as int],
                ));
            }
            entries.push(self.entries[i]);
            i = i + 1;
        }
        proof {
            assert(self.entries@.take(i as int) =~= self.entries@);
        }
        Keys { entries }
    }
}

} // verus!
