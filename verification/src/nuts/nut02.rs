//! Keyset identifiers and keysets.

use crate::nuts::nut00::CurrencyUnit;
use crate::nuts::nut01::{Keys, PublicKey};
use crate::secp::{sha256, sha256_digest};
use crate::util::{ascii_chars, ascii_string, bytes_eq, extend_bytes, hex_decode, hex_encode, hex_of, is_hex, unhex};
use vstd::prelude::*;
use vstd::string::StringSliceAdditionalSpecFns;

verus! {

/// Why a keyset was refused.
#[derive(Clone, Copy, Debug, PartialEq, Eq, Structural)]
pub enum Error {
    /// The text is no hexadecimal text of whole bytes.
    InvalidHex,
    /// An identifier has eight bytes.
    Length,
    /// The identifier is not the one that the keys give.
    IncorrectKeysetId,
}

/// The identifier of a keyset: a version byte of zero and seven bytes derived
/// from the keys.
#[derive(Clone, Copy, Debug, Eq, Hash, PartialOrd, Ord)]
pub struct Id {
    pub bytes: [u8; 8],
}

impl View for Id {
    type V = Seq<u8>;

    open spec fn view(&self) -> Seq<u8> {
        self.bytes@
    }
}

impl PartialEq for Id {
    fn eq(&self, other: &Id) -> (r: bool) {
        bytes_eq(&self.bytes, &other.bytes)
    }
}

impl vstd::std_specs::cmp::PartialEqSpecImpl for Id {
    open spec fn obeys_eq_spec() -> bool {
        true
    }

    open spec fn eq_spec(&self, other: &Id) -> bool {
        self@ == other@
    }
}

/// The compressed public keys of a keyset, one after the other in the order of
/// the entries.
pub open spec fn keys_concat(entries: Seq<(u64, PublicKey)>) -> Seq<u8>
    decreases entries.len(),
{
    if entries.len() == 0 {
        Seq::empty()
    } else {
        keys_concat(entries.drop_last()) + entries.last().1@
    }
}

/// The identifier that a table of keys gives: a zero byte, then the first
/// seven bytes of the SHA-256 digest of the public keys in ascending order of
/// amount.
pub open spec fn keyset_id_of(entries: Seq<(u64, PublicKey)>) -> Seq<u8> {
    seq![0u8] + sha256_digest(keys_concat(entries)).take(7)
}

/// The number that eight bytes stand for, most significant first.
pub open spec fn be_value(bytes: Seq<u8>) -> nat
    decreases bytes.len(),
{
    if bytes.len() == 0 {
        0
    } else {
        be_value(bytes.drop_last()) * 256 + bytes.last() as nat
    }
}

/// The index under which a keyset stands in a key derivation path: its
/// identifier as a number, modulo 2^31 - 1.
pub open spec fn derivation_index(id: Seq<u8>) -> u32 {
    (be_value(id) % 0x7fff_ffff) as u32
}

impl Id {
    /// The identifier of a table of keys.
    pub fn from_keys(keys: &Keys) -> (id: Id)
        ensures
            id@ == keyset_id_of(keys@),
    {
        let mut all: Vec<u8> = Vec::new();
        let n: usize = keys.len();
        let mut i: usize = 0;
        while i < n
            invariant
                n == keys@.len(),
                i <= n,
                all@ == keys_concat(keys@.take(i as int)),
            decreases n - i,
        {
            let entry: (u64, PublicKey) = keys.entry(i);
            proof {
                assert(keys@.take(i + 1).drop_last() =~= keys@.take(i as int));
            }
            extend_bytes(&mut all, entry.1.bytes.as_slice());
            i = i + 1;
        }
        proof {
            assert(keys@.take(i as int) =~= keys@);
        }
        let digest: [u8; 32] = sha256(all.as_slice());
        let mut bytes: [u8; 8] = [0u8; 8];
        let mut k: usize = 0;
        while k < 7
            invariant
                k <= 7,
                bytes@[0] == 0,
                forall|j: int| 0 <= j < k ==> bytes@[j + 1] == digest@[j],
            decreases 7 - k,
        {
            bytes[k + 1] = digest[k];
            k = k + 1;
        }
        proof {
            assert(bytes@ =~= seq![0u8] + digest@.take(7));
        }
        Id { bytes }
    }

    /// The identifier with these eight bytes.
    pub fn from_bytes(bytes: &[u8]) -> (r: Result<Id, Error>)
        ensures
            bytes@.len() != 8 ==> r == Err::<Id, Error>(Error::Length),
            bytes@.len() == 8 ==> (r matches Ok(id) && id@ == bytes@),
    {
        if bytes.len() != 8 {
            return Err(Error::Length);
        }
        let mut a: [u8; 8] = [0u8; 8];
        let mut i: usize = 0;
        while i < 8
            invariant
                i <= 8,
                bytes@.len() == 8,
                forall|k: int| 0 <= k < i ==> a@[k] == bytes@[k],
            decreases 8 - i,
        {
            a[i] = bytes[i];
            i = i + 1;
        }
        proof {
            assert(a@ =~= bytes@);
        }
        Ok(Id { bytes: a })
    }

    /// The identifier that sixteen hexadecimal digits stand for.
    pub fn from_hex(hex: &str) -> (r: Result<Id, Error>)
        ensures
            match r {
                Ok(id) => is_hex(hex.spec_bytes()) && id@ == unhex(hex.spec_bytes()),
                Err(Error::InvalidHex) => !is_hex(hex.spec_bytes()),
                Err(Error::Length) => is_hex(hex.spec_bytes()) && hex.spec_bytes().len() != 16,
                Err(_) => false,
            },
    {
        match hex_decode(hex.as_bytes()) {
            Some(bytes) => Id::from_bytes(bytes.as_slice()),
            None => Err(Error::InvalidHex),
        }
    }

    /// The eight bytes of the identifier.
    pub fn to_bytes(&self) -> (bytes: [u8; 8])
        ensures
            bytes@ == self@,
    {
        self.bytes
    }

    /// The identifier as sixteen lower-case hexadecimal digits.
    pub fn to_hex(&self) -> (hex: String)
        ensures
            hex@ == ascii_chars(hex_of(self@)),
    {
        ascii_string(hex_encode(self.bytes.as_slice()))
    }

    /// The identifier as a number, most significant byte first.
    pub fn to_u64(&self) -> (value: u64)
        ensures
            value as nat == be_value(self@),
    {
        let mut value: u64 = 0;
        let mut i: usize = 0;
        while i < 8
            invariant
                i <= 8,
                value as nat == be_value(self@.take(i as int)),
                (value as nat) < pow256(i as nat),
            decreases 8 - i,
        {
            proof {
                assert(self@.take(i + 1).drop_last() =~= self@.take(i as int));
                lemma_pow256(i as nat);
            }
            value = value * 256 + self.bytes[i] as u64;
            i = i + 1;
        }
        proof {
            assert(self@.take(8) =~= self@);
        }
        value
    }

    /// The index under which the keyset stands in a key derivation path.
    pub fn to_derivation_index(&self) -> (index: u32)
        ensures
            index == derivation_index(self@),
            index < 0x7fff_ffff,
    {
        (self.to_u64() % 0x7fff_ffff) as u32
    }
}

/// 256 to the power `n`.
pub open spec fn pow256(n: nat) -> nat
    decreases n,
{
    if n == 0 {
        1
    } else {
        256 * pow256((n - 1) as nat)
    }
}

/// Up to eight bytes fit in 64 bits.
proof fn lemma_pow256(n: nat)
    requires
        n <= 8,
    ensures
        pow256(n) > 0,
        n < 8 ==> pow256(n) * 256 <= 0x1_0000_0000_0000_0000,
        pow256(n + 1) == 256 * pow256(n),
    decreases n,
{
    reveal_with_fuel(pow256, 10);
}

/// What a mint tells of one of its keysets.
#[derive(Debug, PartialEq, Eq)]
pub struct KeySetInfo {
    /// The identifier of the keyset.
    pub id: Id,
    /// The unit of its amounts.
    pub unit: CurrencyUnit,
    /// Whether the mint signs new outputs with it.
    pub active: bool,
    /// Fee in parts per thousand input proofs.
    pub input_fee_ppk: u64,
}

impl Clone for KeySetInfo {
    fn clone(&self) -> (r: KeySetInfo)
        ensures
            r == *self,
    {
        KeySetInfo {
            id: self.id,
            unit: self.unit.clone(),
            active: self.active,
            input_fee_ppk: self.input_fee_ppk,
        }
    }
}

/// A keyset with its public keys.
#[derive(Debug, PartialEq, Eq)]
pub struct KeySet {
    /// The identifier of the keyset.
    pub id: Id,
    /// The unit of its amounts.
    pub unit: CurrencyUnit,
    /// The public key for each amount.
    pub keys: Keys,
}

impl KeySet {
    /// Checks that the identifier is the one that the keys give.
    pub fn verify_id(&self) -> (r: Result<(), Error>)
        ensures
            self.id@ == keyset_id_of(self.keys@) ==> r.is_ok(),
            self.id@ != keyset_id_of(self.keys@) ==> r == Err::<(), Error>(Error::IncorrectKeysetId),
    {
        let derived: Id = Id::from_keys(&self.keys);
        if derived == self.id {
            Ok(())
        } else {
            Err(Error::IncorrectKeysetId)
        }
    }
}

} // verus!
