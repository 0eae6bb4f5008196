//! Secrets and blinding factors derived from a seed, so that a wallet can
//! make them again.

use crate::amount::{all_denominations, targeted_parts, total, Amount, FeeAndAmounts, SplitTarget};
use crate::dhke::{blind_message, blinded};
use crate::nuts::nut00::{is_blinded, premint_amounts, BlindedMessage, PreMint, PreMintSecrets, Secret};
use crate::nuts::nut01::{PublicKey, SecretKey};
use crate::nuts::nut02::{derivation_index, Id};
use crate::secp::{bip32_derive, bip32_secret};
use crate::util::{ascii_chars, ascii_string, hex_encode, hex_of};
use vstd::prelude::*;

verus! {

/// Why secrets could not be derived.
#[derive(Clone, Copy, Debug, PartialEq, Eq, Structural)]
pub enum Error {
    /// The amount could not be split.
    Amount(crate::amount::Error),
    /// A secret could not be blinded.
    Dhke(crate::dhke::Error),
    /// A counter is not below 2^31.
    InvalidChildNumber,
    /// The seed gives no key at the path.
    Bip32,
}

/// The purpose under which all secrets of this protocol are derived.
pub const PURPOSE: u32 = 129372;

/// The child number of a hardened child with an index below 2^31.
pub open spec fn hardened(index: u32) -> u32 {
    (index + 0x8000_0000) as u32
}

/// The path of a secret (`leaf` 0) or of a blinding factor (`leaf` 1):
/// `m/129372'/0'/keyset'/counter'/leaf`.
pub open spec fn derivation_path(keyset_id: Seq<u8>, counter: u32, leaf: u32) -> Seq<u32> {
    seq![hardened(PURPOSE), hardened(0), hardened(derivation_index(keyset_id)), hardened(counter), leaf]
}

/// The key at the path of a counter, or why there is none.
pub open spec fn derived_key(seed: Seq<u8>, keyset_id: Seq<u8>, counter: u32, leaf: u32) -> Result<
    Seq<u8>,
    Error,
> {
    if counter >= 0x8000_0000 {
        Err(Error::InvalidChildNumber)
    } else {
        match bip32_secret(seed, derivation_path(keyset_id, counter, leaf)) {
            Some(key) => Ok(key),
            None => Err(Error::Bip32),
        }
    }
}

/// The secret of a counter as ASCII codes: the hexadecimal text of the key at
/// its path.
pub open spec fn derived_secret(seed: Seq<u8>, keyset_id: Seq<u8>, counter: u32) -> Result<
    Seq<u8>,
    Error,
> {
    match derived_key(seed, keyset_id, counter, 0) {
        Ok(key) => Ok(hex_of(key)),
        Err(e) => Err(e),
    }
}

/// The blinding factor of a counter.
pub open spec fn derived_factor(seed: Seq<u8>, keyset_id: Seq<u8>, counter: u32) -> Result<
    Seq<u8>,
    Error,
> {
    derived_key(seed, keyset_id, counter, 1)
}

/// The key at the path of a counter.
fn derive(seed: &[u8], keyset_id: Id, counter: u32, leaf: u32) -> (r: Result<[u8; 32], Error>)
    requires
        leaf < 2,
    ensures
        match r {
            Ok(key) => derived_key(seed@, keyset_id@, counter, leaf) == Ok::<Seq<u8>, Error>(key@),
            Err(e) => derived_key(seed@, keyset_id@, counter, leaf) == Err::<Seq<u8>, Error>(e),
        },
{
    if counter >= 0x8000_0000 {
        return Err(Error::InvalidChildNumber);
    }
    let mut path: Vec<u32> = Vec::new();
    path.push(PURPOSE + 0x8000_0000);
    path.push(0x8000_0000);
    path.push(keyset_id.to_derivation_index() + 0x8000_0000);
    path.push(counter + 0x8000_0000);
    path.push(leaf);
    proof {
        assert(path@ =~= derivation_path(keyset_id@, counter, leaf));
    }
    match bip32_derive(seed, &path) {
        Some(key) => Ok(key),
        None => Err(Error::Bip32),
    }
}

impl Secret {
    /// The secret of a counter under a keyset.
    pub fn from_seed(seed: &[u8], keyset_id: Id, counter: u32) -> (r: Result<Secret, Error>)
        ensures
            match r {
                Ok(secret) => derived_secret(seed@, keyset_id@, counter) matches Ok(text) && secret@
                    == ascii_chars(text),
                Err(e) => derived_secret(seed@, keyset_id@, counter) == Err::<Seq<u8>, Error>(e),
            },
    {
        match derive(seed, keyset_id, counter, 0) {
            Ok(key) => Ok(Secret { text: ascii_string(hex_encode(key.as_slice())) }),
            Err(e) => Err(e),
        }
    }
}

impl SecretKey {
    /// The blinding factor of a counter under a keyset.
    pub fn from_seed(seed: &[u8], keyset_id: Id, counter: u32) -> (r: Result<SecretKey, Error>)
        ensures
            match r {
                Ok(key) => derived_factor(seed@, keyset_id@, counter) == Ok::<Seq<u8>, Error>(key@),
                Err(e) => derived_factor(seed@, keyset_id@, counter) == Err::<Seq<u8>, Error>(e),
            },
    {
        match derive(seed, keyset_id, counter, 1) {
            Ok(bytes) => Ok(SecretKey { bytes }),
            Err(e) => Err(e),
        }
    }
}

/// The blinded secret of a counter, or why there is none.
pub open spec fn derived_blinded(seed: Seq<u8>, keyset_id: Seq<u8>, counter: int) -> Result<
    Seq<u8>,
    Error,
> {
    if counter >= 0x8000_0000 {
        Err(Error::InvalidChildNumber)
    } else {
        match derived_secret(seed, keyset_id, counter as u32) {
            Err(e) => Err(e),
            Ok(text) => match derived_factor(seed, keyset_id, counter as u32) {
                Err(e) => Err(e),
                Ok(r) => match blinded(vstd::utf8::encode_utf8(ascii_chars(text)), r) {
                    Err(e) => Err(Error::Dhke(e)),
                    Ok(b) => Ok(b),
                },
            },
        }
    }
}

/// `p` is the pre-mint of a counter for an amount.
pub open spec fn is_derived(p: PreMint, seed: Seq<u8>, keyset_id: Id, counter: int, amount: Amount) -> bool {
    &&& 0 <= counter < 0x8000_0000
    &&& p.amount == amount
    &&& p.blinded_message.amount == amount
    &&& p.blinded_message.keyset_id == keyset_id
    &&& derived_secret(seed, keyset_id@, counter as u32) matches Ok(text) && p.secret@ == ascii_chars(
        text,
    )
    &&& derived_factor(seed, keyset_id@, counter as u32) == Ok::<Seq<u8>, Error>(p.r@)
    &&& derived_blinded(seed, keyset_id@, counter) == Ok::<Seq<u8>, Error>(
        p.blinded_message.blinded_secret@,
    )
    &&& is_blinded(p)
}

/// The error of the first of `n` counters from `counter` on that gives no
/// blinded secret.
pub open spec fn first_underivable(seed: Seq<u8>, keyset_id: Seq<u8>, counter: int, n: int) -> Option<
    Error,
>
    decreases n,
{
    if n <= 0 {
        None
    } else {
        match first_underivable(seed, keyset_id, counter, n - 1) {
            Some(e) => Some(e),
            None => match derived_blinded(seed, keyset_id, counter + n - 1) {
                Err(e) => Some(e),
                Ok(_) => None,
            },
        }
    }
}

/// The parts that an amount is split into for a keyset, or why it cannot be.
pub open spec fn split_result(amount: Amount, target: SplitTarget, amounts: Seq<u64>) -> Result<
    Seq<Amount>,
    crate::amount::Error,
> {
    match targeted_parts(amount, target) {
        Err(e) => Err(e),
        Ok(parts) => if all_denominations(amounts, parts) {
            Ok(parts)
        } else {
            Err(crate::amount::Error::InvalidDenomination)
        },
    }
}

impl PreMintSecrets {
    /// The blinded messages for an amount, their secrets and blinding factors
    /// derived from the seed: the first part of the split takes the counter
    /// `counter`, each further part the next one.
    pub fn from_seed(
        keyset_id: Id,
        counter: u32,
        seed: &[u8],
        amount: Amount,
        amount_split_target: &SplitTarget,
        fee_and_amounts: &FeeAndAmounts,
    ) -> (r: Result<PreMintSecrets, Error>)
        ensures
            match split_result(amount, *amount_split_target, fee_and_amounts.amounts@) {
                Err(e) => r == Err::<PreMintSecrets, Error>(Error::Amount(e)),
                Ok(parts) => match first_underivable(seed@, keyset_id@, counter as int, parts.len() as int) {
                    Some(e) => r == Err::<PreMintSecrets, Error>(e),
                    None => {
                        &&& r matches Ok(pre)
                        &&& pre.keyset_id == keyset_id
                        &&& premint_amounts(pre.secrets@) == parts
                        &&& total(premint_amounts(pre.secrets@)) == amount.0
                        &&& forall|i: int|
                            0 <= i < parts.len() ==> is_derived(
                                #[trigger] pre.secrets@[i],
                                seed@,
                                keyset_id,
                                counter + i,
                                parts[i],
                            )
                    },
                },
            },
    {
        let parts: Vec<Amount> = match amount.split_targeted(amount_split_target, fee_and_amounts) {
            Ok(parts) => parts,
            Err(e) => {
                return Err(Error::Amount(e));
            },
        };
        let mut secrets: Vec<PreMint> = Vec::new();
        let mut i: usize = 0;
        while i < parts.len()
            invariant
                i <= parts.len(),
                secrets@.len() == i,
                split_result(amount, *amount_split_target, fee_and_amounts.amounts@) == Ok::<
                    Seq<Amount>,
                    crate::amount::Error,
                >(parts@),
                total(parts@) == amount.0,
                first_underivable(seed@, keyset_id@, counter as int, i as int).is_none(),
                forall|k: int|
                    0 <= k < i ==> is_derived(
                        #[trigger] secrets@[k],
                        seed@,
                        keyset_id,
                        counter + k,
                        parts@[k],
                    ),
            decreases parts.len() - i,
        {
            let at: u32 = if i < 0x8000_0000 && counter < 0x8000_0000 - i as u32 {
                counter + i as u32
            } else {
                proof {
                    lemma_underivable_stays(seed@, keyset_id@, counter as int, i + 1, parts@.len() as int);
                }
                return Err(Error::InvalidChildNumber);
            };
            let made: Result<PreMint, Error> = derive_premint(seed, keyset_id, at, parts[i]);
            match made {
                Ok(p) => {
                    secrets.push(p);
                },
                Err(e) => {
                    proof {
                        lemma_underivable_stays(
                            seed@,
                            keyset_id@,
                            counter as int,
                            i + 1,
                            parts@.len() as int,
                        );
                    }
                    return Err(e);
                },
            }
            i = i + 1;
        }
        proof {
            assert(premint_amounts(secrets@) =~= parts@);
        }
        Ok(PreMintSecrets { secrets, keyset_id })
    }
}

/// The pre-mint of one counter for an amount.
fn derive_premint(seed: &[u8], keyset_id: Id, counter: u32, amount: Amount) -> (r: Result<PreMint, Error>)
    requires
        counter < 0x8000_0000,
    ensures
        match r {
            Ok(p) => is_derived(p, seed@, keyset_id, counter as int, amount),
            Err(e) => derived_blinded(seed@, keyset_id@, counter as int) == Err::<Seq<u8>, Error>(e),
        },
{
    let key: [u8; 32] = match derive(seed, keyset_id, counter, 0) {
        Ok(key) => key,
        Err(e) => {
            return Err(e);
        },
    };
    let secret = Secret { text: ascii_string(hex_encode(key.as_slice())) };
    let factor: SecretKey = match SecretKey::from_seed(seed, keyset_id, counter) {
        Ok(factor) => factor,
        Err(e) => {
            return Err(e);
        },
    };
    let bytes: Vec<u8> = secret.to_bytes();
    let blinded_secret: PublicKey = match blind_message(bytes.as_slice(), Some(factor)) {
        Ok((b, _)) => b,
        Err(e) => {
            return Err(Error::Dhke(e));
        },
    };
    Ok(
        PreMint {
            blinded_message: BlindedMessage { amount, keyset_id, blinded_secret },
            secret,
            r: factor,
            amount,
        },
    )
}

/// A failure among the first `n` counters is the failure among any more.
proof fn lemma_underivable_stays(seed: Seq<u8>, keyset_id: Seq<u8>, counter: int, n: int, m: int)
    requires
        0 <= n <= m,
        first_underivable(seed, keyset_id, counter, n).is_some(),
    ensures
        first_underivable(seed, keyset_id, counter, m) == first_underivable(seed, keyset_id, counter, n),
    decreases m - n,
{
    if n < m {
        lemma_underivable_stays(seed, keyset_id, counter, n, m - 1);
    }
}

} // verus!
