//! Secrets that lock a proof to a condition: a key that must sign, or a hash
//! whose preimage must be shown.

use crate::amount::{total, Amount, FeeAndAmounts, SplitTarget};
use crate::dhke::{blind_message, blinding_can_fail};
use crate::nuts::nut00::{is_blinded, premint_amounts, BlindedMessage, PreMint, PreMintSecrets, Secret};
use crate::nuts::nut01::{PublicKey, SecretKey};
use crate::nuts::nut02::Id;
use crate::nuts::nut13::{split_result, Error};
use crate::secp::{public_point, random_secret};
use crate::util::{ascii_chars, ascii_string, hex_encode, hex_of};
use vstd::prelude::*;
use vstd::string::StringExecFns;

verus! {

/// What must be met to spend a proof.
#[derive(Clone, Copy, Debug, PartialEq, Eq, Hash)]
pub enum SpendingConditions {
    /// A signature under this key.
    P2PK { data: PublicKey },
    /// The preimage of this SHA-256 digest.
    HTLC { hash: [u8; 32] },
}

/// The text of a secret that carries a condition, with a nonce that makes it
/// unlike any other: the kind, then the nonce and the data as hexadecimal
/// text.
pub open spec fn condition_text(conditions: SpendingConditions, nonce: Seq<u8>) -> Seq<char> {
    match conditions {
        SpendingConditions::P2PK { data } => "[\"P2PK\",{\"nonce\":\""@ + ascii_chars(hex_of(nonce))
            + "\",\"data\":\""@ + ascii_chars(hex_of(data@)) + "\"}]"@,
        SpendingConditions::HTLC { hash } => "[\"HTLC\",{\"nonce\":\""@ + ascii_chars(hex_of(nonce))
            + "\",\"data\":\""@ + ascii_chars(hex_of(hash@)) + "\"}]"@,
    }
}

/// `p` carries the condition for an amount of a keyset.
pub open spec fn is_conditional(p: PreMint, conditions: SpendingConditions, keyset_id: Id, amount: Amount) -> bool {
    &&& p.amount == amount
    &&& p.blinded_message.keyset_id == keyset_id
    &&& exists|nonce: Seq<u8>| p.secret@ == #[trigger] condition_text(conditions, nonce)
    &&& is_blinded(p)
}

/// The pre-mint secrets are of a keyset and for the parts of an amount, and
/// each carries the condition.
pub open spec fn are_conditional(
    pre: PreMintSecrets,
    conditions: SpendingConditions,
    keyset_id: Id,
    amount: Amount,
    parts: Seq<Amount>,
) -> bool {
    &&& pre.keyset_id == keyset_id
    &&& premint_amounts(pre.secrets@) == parts
    &&& total(premint_amounts(pre.secrets@)) == amount.0
    &&& forall|i: int|
        0 <= i < parts.len() ==> is_conditional(#[trigger] pre.secrets@[i], conditions, keyset_id, parts[i])
}

/// The secret that carries the condition with a nonce is not blinded, with
/// the error `e`.
pub open spec fn refuses_condition(e: Error, conditions: SpendingConditions, nonce: Seq<u8>) -> bool {
    e matches Error::Dhke(d) && blinding_can_fail(d, vstd::utf8::encode_utf8(condition_text(conditions, nonce)))
}

/// The making of secrets that carry a condition fails with the error `e`: the
/// secret with some nonce that was drawn, a secret key, is not blinded.
pub open spec fn is_conditional_failure(e: Error, conditions: SpendingConditions) -> bool {
    exists|nonce: Seq<u8>| public_point(nonce).is_some() && #[trigger] refuses_condition(e, conditions, nonce)
}

/// What the making of secrets that carry a condition gives for the parts of
/// an amount: the secrets, or the error of a secret that is not blinded.
/// Where there are no parts it does not fail.
pub open spec fn are_made_conditional(
    r: Result<PreMintSecrets, Error>,
    conditions: SpendingConditions,
    keyset_id: Id,
    amount: Amount,
    parts: Seq<Amount>,
) -> bool {
    &&& parts.len() == 0 ==> r.is_ok()
    &&& match r {
        Ok(pre) => are_conditional(pre, conditions, keyset_id, amount, parts),
        Err(e) => is_conditional_failure(e, conditions),
    }
}

impl SpendingConditions {
    /// The secret that carries the condition with a nonce.
    pub fn to_secret(&self, nonce: &[u8; 32]) -> (secret: Secret)
        ensures
            secret@ == condition_text(*self, nonce@),
    {
        let nonce_text: String = ascii_string(hex_encode(nonce.as_slice()));
        let (mut text, data_text): (String, String) = match self {
            SpendingConditions::P2PK { data } => (
                "[\"P2PK\",{\"nonce\":\"".to_owned(),
                ascii_string(hex_encode(data.bytes.as_slice())),
            ),
            SpendingConditions::HTLC { hash } => (
                "[\"HTLC\",{\"nonce\":\"".to_owned(),
                ascii_string(hex_encode(hash.as_slice())),
            ),
        };
        text.append(nonce_text.as_str());
        text.append("\",\"data\":\"");
        text.append(data_text.as_str());
        text.append("\"}]");
        Secret { text }
    }
}

impl PreMintSecrets {
    /// The blinded messages for an amount, each secret carrying the condition
    /// with a fresh random nonce and blinded with a fresh random factor: two
    /// calls differ.
    ///
    /// It fails with the error of the split where the amount cannot be split,
    /// and else only where a secret cannot be blinded.
    pub fn with_conditions(
        keyset_id: Id,
        amount: Amount,
        amount_split_target: &SplitTarget,
        conditions: &SpendingConditions,
        fee_and_amounts: &FeeAndAmounts,
    ) -> (r: Result<PreMintSecrets, Error>)
        ensures
            match split_result(amount, *amount_split_target, fee_and_amounts.amounts@) {
                Err(e) => r == Err::<PreMintSecrets, Error>(Error::Amount(e)),
                Ok(parts) => are_made_conditional(r, *conditions, keyset_id, amount, parts),
            },
    {
        let parts: Vec<Amount> = match amount.split_targeted(amount_split_target, fee_and_amounts) {
            Ok(parts) => parts,
            Err(e) => {
                return Err(Error::Amount(e));
            },
        };
        let mut secrets: Vec<PreMint> = Vec::new();
        let mut i: usize = 0;
        while i < parts.len()
            invariant
                i <= parts.len(),
                secrets@.len() == i,
                split_result(amount, *amount_split_target, fee_and_amounts.amounts@) == Ok::<
                    Seq<Amount>,
                    crate::amount::Error,
                >(parts@),
                total(parts@) == amount.0,
                forall|k: int|
                    0 <= k < i ==> is_conditional(
                        #[trigger] secrets@[k],
                        *conditions,
                        keyset_id,
                        parts@[k],
                    ),
            decreases parts.len() - i,
        {
            let nonce: [u8; 32] = random_secret();
            let secret: Secret = conditions.to_secret(&nonce);
            let bytes: Vec<u8> = secret.to_bytes();
            let (blinded_secret, factor): (PublicKey, SecretKey) = match blind_message(
                bytes.as_slice(),
                None,
            ) {
                Ok(pair) => pair,
                Err(e) => {
                    proof {
                        assert(refuses_condition(Error::Dhke(e), *conditions, nonce@));
                    }
                    return Err(Error::Dhke(e));
                },
            };
            let p = PreMint {
                blinded_message: BlindedMessage { amount: parts[i], keyset_id, blinded_secret },
                secret,
                r: factor,
                amount: parts[i],
            };
            proof {
                assert(p.secret@ == condition_text(*conditions, nonce@));
            }
            secrets.push(p);
            i = i + 1;
        }
        proof {
            assert(premint_amounts(secrets@) =~= parts@);
        }
        Ok(PreMintSecrets { secrets, keyset_id })
    }
}

} // verus!
