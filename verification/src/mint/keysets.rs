//! The keysets of a mint, with their secret keys.

use crate::error::Error;
use crate::nuts::nut00::CurrencyUnit;
use crate::nuts::nut01::{Keys, PublicKey, SecretKey};
use crate::nuts::nut02::{keyset_id_of, Id, KeySetInfo};
use crate::secp::{bip32_derive, bip32_secret, public_of, public_point};
use vstd::arithmetic::power2::{lemma2_to64, lemma2_to64_rest, lemma_pow2_strictly_increases, lemma_pow2_unfold, pow2};
use vstd::prelude::*;

verus! {

/// The keys of a keyset for one amount.
#[derive(Clone, Copy, Debug, PartialEq, Eq)]
pub struct MintKeyPair {
    /// The amount.
    pub amount: u64,
    /// The key that signs outputs of the amount.
    pub secret_key: SecretKey,
    /// The key that the mint advertises for the amount.
    pub public_key: PublicKey,
}

/// A keyset of a mint.
#[derive(Debug, PartialEq, Eq)]
pub struct MintKeySet {
    /// The identifier of the keyset.
    pub id: Id,
    /// The unit of its amounts.
    pub unit: CurrencyUnit,
    /// Whether the mint signs new outputs with it.
    pub active: bool,
    /// Fee in parts per thousand input proofs.
    pub input_fee_ppk: u64,
    /// The keys, in ascending order of amount.
    pub keys: Vec<MintKeyPair>,
}

/// The public side of a list of key pairs.
pub open spec fn public_entries(pairs: Seq<MintKeyPair>) -> Seq<(u64, PublicKey)> {
    Seq::new(pairs.len(), |i: int| (pairs[i].amount, pairs[i].public_key))
}

/// The pair of the first entry for an amount, if there is one.
pub open spec fn pair_for(pairs: Seq<MintKeyPair>, amount: u64) -> Option<MintKeyPair>
    decreases pairs.len(),
{
    if pairs.len() == 0 {
        None
    } else if pairs[0].amount == amount {
        Some(pairs[0])
    } else {
        pair_for(pairs.drop_first(), amount)
    }
}

/// The path of the key for the amount 2^`order`: the path of the keyset and
/// below it the hardened child `order`.
pub open spec fn key_path(path: Seq<u32>, order: nat) -> Seq<u32> {
    path.push((order + 0x8000_0000) as u32)
}

/// `pair` is the key pair at place `order` of a keyset derived from a seed.
pub open spec fn is_derived_pair(pair: MintKeyPair, seed: Seq<u8>, path: Seq<u32>, order: nat) -> bool {
    &&& pair.amount as nat == pow2(order)
    &&& bip32_secret(seed, key_path(path, order)) == Some(pair.secret_key@)
    &&& public_point(pair.secret_key@) == Some(pair.public_key@)
}

/// The error of the first of the first `n` places that has no key.
pub open spec fn first_keyless(seed: Seq<u8>, path: Seq<u32>, n: int) -> Option<Error>
    decreases n,
{
    if n <= 0 {
        None
    } else {
        match first_keyless(seed, path, n - 1) {
            Some(e) => Some(e),
            None => match bip32_secret(seed, key_path(path, (n - 1) as nat)) {
                None => Some(Error::Derivation(crate::nuts::nut13::Error::Bip32)),
                Some(key) => if public_point(key).is_none() {
                    Some(Error::Derivation(crate::nuts::nut13::Error::Bip32))
                } else {
                    None
                },
            },
        }
    }
}

/// A failure among the first `n` places is the failure among any more.
proof fn lemma_keyless_stays(seed: Seq<u8>, path: Seq<u32>, n: int, m: int)
    requires
        0 <= n <= m,
        first_keyless(seed, path, n).is_some(),
    ensures
        first_keyless(seed, path, m) == first_keyless(seed, path, n),
    decreases m - n,
{
    if n < m {
        lemma_keyless_stays(seed, path, n, m - 1);
    }
}

impl MintKeySet {
    /// The keys that the mint advertises.
    pub open spec fn public_view(&self) -> Seq<(u64, PublicKey)> {
        public_entries(self.keys@)
    }

    /// The keyset with the keys for the amounts 1, 2, 4, ... up to
    /// 2^(`max_order` - 1), each derived from the seed at the path of the
    /// keyset and the place of the amount. The identifier is the one that the
    /// public keys give.
    pub fn generate(
        seed: &[u8],
        derivation_path: &Vec<u32>,
        max_order: u8,
        unit: CurrencyUnit,
        active: bool,
        input_fee_ppk: u64,
    ) -> (r: Result<MintKeySet, Error>)
        ensures
            max_order > 64 ==> r == Err::<MintKeySet, Error>(Error::KeysetOrder),
            max_order <= 64 ==> match first_keyless(seed@, derivation_path@, max_order as int) {
                Some(e) => r == Err::<MintKeySet, Error>(e),
                None => {
                    &&& r matches Ok(keyset)
                    &&& keyset.unit == unit
                    &&& keyset.active == active
                    &&& keyset.input_fee_ppk == input_fee_ppk
                    &&& keyset.keys@.len() == max_order
                    &&& forall|i: int|
                        0 <= i < max_order ==> is_derived_pair(
                            #[trigger] keyset.keys@[i],
                            seed@,
                            derivation_path@,
                            i as nat,
                        )
                    &&& keyset.id@ == keyset_id_of(keyset.public_view())
                },
            },
    {
        if max_order > 64 {
            return Err(Error::KeysetOrder);
        }
        let mut keys: Vec<MintKeyPair> = Vec::new();
        let mut entries: Vec<(u64, PublicKey)> = Vec::new();
        let mut amount: u64 = 1;
        let mut order: u8 = 0;
        proof {
            lemma2_to64();
        }
        while order < max_order
            invariant
                order <= max_order <= 64,
                keys@.len() == order,
                entries@ == public_entries(keys@),
                order < 64 ==> amount as nat == pow2(order as nat),
                first_keyless(seed@, derivation_path@, order as int).is_none(),
                forall|i: int|
                    0 <= i < order ==> is_derived_pair(
                        #[trigger] keys@[i],
                        seed@,
                        derivation_path@,
                        i as nat,
                    ),
            decreases max_order - order,
        {
            let mut path: Vec<u32> = derivation_path.clone();
            path.push(order as u32 + 0x8000_0000);
            proof {
                assert(path@ =~= key_path(derivation_path@, order as nat));
            }
            let secret: [u8; 32] = match bip32_derive(seed, &path) {
                Some(s) => s,
                None => {
                    proof {
                        lemma_keyless_stays(seed@, derivation_path@, order + 1, max_order as int);
                    }
                    return Err(Error::Derivation(crate::nuts::nut13::Error::Bip32));
                },
            };
            let public: [u8; 33] = match public_of(&secret) {
                Some(p) => p,
                None => {
                    proof {
                        lemma_keyless_stays(seed@, derivation_path@, order + 1, max_order as int);
                    }
                    return Err(Error::Derivation(crate::nuts::nut13::Error::Bip32));
                },
            };
            let pair = MintKeyPair {
                amount,
                secret_key: SecretKey { bytes: secret },
                public_key: PublicKey { bytes: public },
            };
            proof {
                assert(entries@.push((amount, pair.public_key)) =~= public_entries(keys@.push(pair)));
            }
            keys.push(pair);
            entries.push((amount, pair.public_key));
            order = order + 1;
            if order < 64 {
                proof {
                    lemma_pow2_unfold(order as nat);
                    lemma_pow2_strictly_increases(order as nat, 64);
                    lemma2_to64_rest();
                }
                amount = amount * 2;
            }
        }
        let ghost public = entries@;
        let id: Id = match Keys::new(entries) {
            Ok(table) => Id::from_keys(&table),
            Err(_) => {
                proof {
                    assert forall|i: int, j: int| 0 <= i < j < public.len() implies public[i].0
                        < public[j].0 by {
                        assert(is_derived_pair(keys@[i], seed@, derivation_path@, i as nat));
                        assert(is_derived_pair(keys@[j], seed@, derivation_path@, j as nat));
                        lemma_pow2_strictly_increases(i as nat, j as nat);
                    }
                    assert(false);
                }
                return Err(Error::KeysetOrder);
            },
        };
        Ok(MintKeySet { id, unit, active, input_fee_ppk, keys })
    }

    /// The key pair for an amount, if the keyset has one.
    pub fn pair(&self, amount: u64) -> (r: Option<MintKeyPair>)
        ensures
            r == pair_for(self.keys@, amount),
    {
        let mut i: usize = 0;
        proof {
            assert(self.keys@.skip(0) =~= self.keys@);
        }
        while i < self.keys.len()
            invariant
                i <= self.keys.len(),
                pair_for(self.keys@, amount) == pair_for(self.keys@.skip(i as int), amount),
            decreases self.keys.len() - i,
        {
            if self.keys[i].amount == amount {
                return Some(self.keys[i]);
            }
            proof {
                assert(self.keys@.skip(i as int).drop_first() =~= self.keys@.skip(i + 1));
            }
            i = i + 1;
        }
        None
    }

    /// What the mint tells of the keyset.
    pub fn info(&self) -> (info: KeySetInfo)
        ensures
            info == (KeySetInfo {
                id: self.id,
                unit: self.unit,
                active: self.active,
                input_fee_ppk: self.input_fee_ppk,
            }),
    {
        KeySetInfo {
            id: self.id,
            unit: self.unit.clone(),
            active: self.active,
            input_fee_ppk: self.input_fee_ppk,
        }
    }

    /// The amounts and public keys of the keyset, in the order of the keys.
    pub fn public_keys(&self) -> (entries: Vec<(u64, PublicKey)>)
        ensures
            entries@ == self.public_view(),
    {
        let mut entries: Vec<(u64, PublicKey)> = Vec::new();
        let mut i: usize = 0;
        while i < self.keys.len()
            invariant
                i <= self.keys.len(),
                entries@ == public_entries(self.keys@.take(i as int)),
            decreases self.keys.len() - i,
        {
            proof {
                assert(entries@.push((self.keys@[i as int].amount, self.keys@[i as int].public_key))
                    =~= public_entries(self.keys@.take(i + 1)));
            }
            entries.push((self.keys[i].amount, self.keys[i].public_key));
            i = i + 1;
        }
        proof {
            assert(self.keys@.take(i as int) =~= self.keys@);
        }
        entries
    }
}

} // verus!
