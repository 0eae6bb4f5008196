//! Units, blinded messages, blind signatures and proofs.

use crate::amount::{total, Amount};
use crate::nuts::nut01::{PublicKey, SecretKey};
use crate::nuts::nut02::Id;
use vstd::prelude::*;

verus! {

/// The unit in which a keyset counts.
#[derive(Debug, Eq, Hash)]
pub enum CurrencyUnit {
    /// Satoshi.
    Sat,
    /// Thousandths of a satoshi.
    Msat,
    /// United States dollars.
    Usd,
    /// Euro.
    Eur,
    /// A unit by name; mining shares count in one.
    Custom(String),
}

/// The view of a unit: the unit with the name of a custom one as a sequence
/// of characters.
pub enum CurrencyUnitView {
    Sat,
    Msat,
    Usd,
    Eur,
    Custom(Seq<char>),
}

impl View for CurrencyUnit {
    type V = CurrencyUnitView;

    open spec fn view(&self) -> CurrencyUnitView {
        match self {
            CurrencyUnit::Sat => CurrencyUnitView::Sat,
            CurrencyUnit::Msat => CurrencyUnitView::Msat,
            CurrencyUnit::Usd => CurrencyUnitView::Usd,
            CurrencyUnit::Eur => CurrencyUnitView::Eur,
            CurrencyUnit::Custom(name) => CurrencyUnitView::Custom(name@),
        }
    }
}

impl PartialEq for CurrencyUnit {
    fn eq(&self, other: &CurrencyUnit) -> (r: bool) {
        match (self, other) {
            (CurrencyUnit::Sat, CurrencyUnit::Sat) => true,
            (CurrencyUnit::Msat, CurrencyUnit::Msat) => true,
            (CurrencyUnit::Usd, CurrencyUnit::Usd) => true,
            (CurrencyUnit::Eur, CurrencyUnit::Eur) => true,
            (CurrencyUnit::Custom(a), CurrencyUnit::Custom(b)) => *a == *b,
            _ => false,
        }
    }
}

impl vstd::std_specs::cmp::PartialEqSpecImpl for CurrencyUnit {
    open spec fn obeys_eq_spec() -> bool {
        true
    }

    open spec fn eq_spec(&self, other: &CurrencyUnit) -> bool {
        self@ == other@
    }
}

impl Clone for CurrencyUnit {
    fn clone(&self) -> (r: CurrencyUnit)
        ensures
            r == *self,
    {
        match self {
            CurrencyUnit::Sat => CurrencyUnit::Sat,
            CurrencyUnit::Msat => CurrencyUnit::Msat,
            CurrencyUnit::Usd => CurrencyUnit::Usd,
            CurrencyUnit::Eur => CurrencyUnit::Eur,
            CurrencyUnit::Custom(name) => CurrencyUnit::Custom(name.clone()),
        }
    }
}

/// How a mint quote is paid.
#[derive(Clone, Copy, Debug, PartialEq, Eq, Structural, Hash)]
pub enum PaymentMethod {
    /// A BOLT11 Lightning invoice.
    Bolt11,
    /// A BOLT12 Lightning offer.
    Bolt12,
    /// A submitted mining share.
    MiningShare,
}

/// The state of a mint quote.
#[derive(Clone, Copy, Debug, PartialEq, Eq, Structural, Hash)]
pub enum MintQuoteState {
    /// Not paid yet.
    Unpaid,
    /// Paid; ecash can be issued for it.
    Paid,
    /// Issuance is under way.
    Pending,
    /// Ecash has been issued for it.
    Issued,
}

/// The secret of a proof, as text.
#[derive(Debug, PartialEq, Eq, Hash)]
pub struct Secret {
    pub text: String,
}

impl View for Secret {
    type V = Seq<char>;

    open spec fn view(&self) -> Seq<char> {
        self.text@
    }
}

impl Clone for Secret {
    fn clone(&self) -> (r: Secret)
        ensures
            r == *self,
    {
        Secret { text: self.text.clone() }
    }
}

impl Secret {
    /// The secret with this text.
    pub fn new(text: String) -> (s: Secret)
        ensures
            s.text == text,
    {
        Secret { text }
    }

    /// The bytes that are hashed to the curve: the UTF-8 form of the text.
    pub fn to_bytes(&self) -> (bytes: Vec<u8>)
        ensures
            bytes@ == vstd::utf8::encode_utf8(self@),
    {
        let mut bytes: Vec<u8> = Vec::new();
        crate::util::extend_bytes(&mut bytes, self.text.as_str().as_bytes());
        proof {
            assert(Seq::<u8>::empty() + bytes@ =~= bytes@);
        }
        bytes
    }
}

/// What a wallet asks a mint to sign: a blinded secret for an amount of a
/// keyset.
#[derive(Clone, Copy, Debug, PartialEq, Eq, Hash)]
pub struct BlindedMessage {
    /// The amount that the signature is to be worth.
    pub amount: Amount,
    /// The keyset whose key for the amount is to sign.
    pub keyset_id: Id,
    /// The blinded secret.
    pub blinded_secret: PublicKey,
}

impl BlindedMessage {
    /// The message for an amount of a keyset.
    pub fn new(amount: Amount, keyset_id: Id, blinded_secret: PublicKey) -> (m: BlindedMessage)
        ensures
            m.amount == amount,
            m.keyset_id == keyset_id,
            m.blinded_secret == blinded_secret,
    {
        BlindedMessage { amount, keyset_id, blinded_secret }
    }
}

/// The proof that a blind signature was made with the advertised key, as the
/// mint sends it.
#[derive(Clone, Copy, Debug, PartialEq, Eq, Hash)]
pub struct BlindSignatureDleq {
    /// The challenge.
    pub e: SecretKey,
    /// The response.
    pub s: SecretKey,
}

/// The same proof as a wallet keeps it with a proof, with the blinding factor.
#[derive(Clone, Copy, Debug, PartialEq, Eq, Hash)]
pub struct ProofDleq {
    /// The challenge.
    pub e: SecretKey,
    /// The response.
    pub s: SecretKey,
    /// The blinding factor.
    pub r: SecretKey,
}

/// A mint's signature on a blinded message.
#[derive(Clone, Copy, Debug, PartialEq, Eq, Hash)]
pub struct BlindSignature {
    /// The amount that the signature is worth.
    pub amount: Amount,
    /// The keyset whose key signed.
    pub keyset_id: Id,
    /// The blinded signature.
    pub c: PublicKey,
    /// The proof that the key for the amount signed.
    pub dleq: Option<BlindSignatureDleq>,
}

/// An unblinded token.
#[derive(Debug, PartialEq, Eq, Hash)]
pub struct Proof {
    /// The amount that the proof is worth.
    pub amount: Amount,
    /// The keyset whose key signed.
    pub keyset_id: Id,
    /// The secret.
    pub secret: Secret,
    /// The unblinded signature.
    pub c: PublicKey,
    /// What unlocks a spending condition.
    pub witness: Option<String>,
    /// The proof that the key for the amount signed.
    pub dleq: Option<ProofDleq>,
}

impl Clone for Proof {
    fn clone(&self) -> (r: Proof)
        ensures
            r.amount == self.amount,
            r.keyset_id == self.keyset_id,
            r.secret == self.secret,
            r.c == self.c,
            r.dleq == self.dleq,
            r.witness == self.witness,
            r == *self,
    {
        Proof {
            amount: self.amount,
            keyset_id: self.keyset_id,
            secret: self.secret.clone(),
            c: self.c,
            witness: match &self.witness {
                Some(w) => Some(w.clone()),
                None => None,
            },
            dleq: self.dleq,
        }
    }
}

/// A blinded message with what the wallet needs to unblind its signature.
#[derive(Debug, PartialEq, Eq)]
pub struct PreMint {
    /// The blinded message.
    pub blinded_message: BlindedMessage,
    /// The secret that was blinded.
    pub secret: Secret,
    /// The blinding factor.
    pub r: SecretKey,
    /// The amount.
    pub amount: Amount,
}

impl Clone for PreMint {
    fn clone(&self) -> (r: PreMint)
        ensures
            r == *self,
    {
        PreMint {
            blinded_message: self.blinded_message,
            secret: self.secret.clone(),
            r: self.r,
            amount: self.amount,
        }
    }
}

/// The blinded message of a pre-mint is for its amount and blinds its secret
/// with its blinding factor.
pub open spec fn is_blinded(p: PreMint) -> bool {
    &&& p.blinded_message.amount == p.amount
    &&& crate::dhke::blinded(vstd::utf8::encode_utf8(p.secret@), p.r@) == Ok::<
        Seq<u8>,
        crate::dhke::Error,
    >(p.blinded_message.blinded_secret@)
}

/// The blinded messages of one request, all of one keyset, in the order of the
/// request.
#[derive(Debug, PartialEq, Eq)]
pub struct PreMintSecrets {
    /// The blinded messages with their secrets.
    pub secrets: Vec<PreMint>,
    /// The keyset of all of them.
    pub keyset_id: Id,
}

/// The blinded messages of a list of pre-mints, in their order.
pub open spec fn premint_messages(secrets: Seq<PreMint>) -> Seq<BlindedMessage> {
    Seq::new(secrets.len(), |i: int| secrets[i].blinded_message)
}

/// The blinding factors of a list of pre-mints, in their order.
pub open spec fn premint_factors(secrets: Seq<PreMint>) -> Seq<SecretKey> {
    Seq::new(secrets.len(), |i: int| secrets[i].r)
}

/// The secrets of a list of pre-mints, in their order.
pub open spec fn premint_secrets(secrets: Seq<PreMint>) -> Seq<Secret> {
    Seq::new(secrets.len(), |i: int| secrets[i].secret)
}

/// The amounts of a list of pre-mints, in their order.
pub open spec fn premint_amounts(secrets: Seq<PreMint>) -> Seq<Amount> {
    Seq::new(secrets.len(), |i: int| secrets[i].amount)
}

impl PreMintSecrets {
    /// No blinded messages yet, for a keyset.
    pub fn new(keyset_id: Id) -> (p: PreMintSecrets)
        ensures
            p.keyset_id == keyset_id,
            p.secrets@.len() == 0,
    {
        PreMintSecrets { secrets: Vec::new(), keyset_id }
    }

    /// The number of blinded messages.
    pub fn len(&self) -> (n: usize)
        ensures
            n == self.secrets@.len(),
    {
        self.secrets.len()
    }

    /// Whether there is no blinded message.
    pub fn is_empty(&self) -> (b: bool)
        ensures
            b == (self.secrets@.len() == 0),
    {
        self.secrets.len() == 0
    }

    /// The blinded messages, in their order.
    pub fn blinded_messages(&self) -> (messages: Vec<BlindedMessage>)
        ensures
            messages@ == premint_messages(self.secrets@),
    {
        let mut messages: Vec<BlindedMessage> = Vec::new();
        let mut i: usize = 0;
        while i < self.secrets.len()
            invariant
                i <= self.secrets.len(),
                messages@ == premint_messages(self.secrets@.take(i as int)),
            decreases self.secrets.len() - i,
        {
            proof {
                assert(messages@.push(self.secrets@[i as int].blinded_message) =~= premint_messages(
                    self.secrets@.take(i + 1),
                ));
            }
            messages.push(self.secrets[i].blinded_message);
            i = i + 1;
        }
        proof {
            assert(self.secrets@.take(i as int) =~= self.secrets@);
        }
        messages
    }

    /// The blinding factors, in the order of the blinded messages.
    pub fn rs(&self) -> (factors: Vec<SecretKey>)
        ensures
            factors@ == premint_factors(self.secrets@),
    {
        let mut factors: Vec<SecretKey> = Vec::new();
        let mut i: usize = 0;
        while i < self.secrets.len()
            invariant
                i <= self.secrets.len(),
                factors@ == premint_factors(self.secrets@.take(i as int)),
            decreases self.secrets.len() - i,
        {
            proof {
                assert(factors@.push(self.secrets@[i as int].r) =~= premint_factors(
                    self.secrets@.take(i + 1),
                ));
            }
            factors.push(self.secrets[i].r);
            i = i + 1;
        }
        proof {
            assert(self.secrets@.take(i as int) =~= self.secrets@);
        }
        factors
    }

    /// The secrets, in the order of the blinded messages.
    pub fn secrets(&self) -> (secrets: Vec<Secret>)
        ensures
            secrets@ == premint_secrets(self.secrets@),
    {
        let mut secrets: Vec<Secret> = Vec::new();
        let mut i: usize = 0;
        while i < self.secrets.len()
            invariant
                i <= self.secrets.len(),
                secrets@ == premint_secrets(self.secrets@.take(i as int)),
            decreases self.secrets.len() - i,
        {
            proof {
                assert(secrets@.push(self.secrets@[i as int].secret) =~= premint_secrets(
                    self.secrets@.take(i + 1),
                ));
            }
            secrets.push(self.secrets[i].secret.clone());
            i = i + 1;
        }
        proof {
            assert(self.secrets@.take(i as int) =~= self.secrets@);
        }
        secrets
    }

    /// The sum of the amounts, or the overflow error.
    pub fn total_amount(&self) -> (r: Result<Amount, crate::amount::Error>)
        ensures
            total(premint_amounts(self.secrets@)) <= u64::MAX ==> r == Ok::<
                Amount,
                crate::amount::Error,
            >(Amount(total(premint_amounts(self.secrets@)) as u64)),
            total(premint_amounts(self.secrets@)) > u64::MAX ==> r == Err::<
                Amount,
                crate::amount::Error,
            >(crate::amount::Error::AmountOverflow),
    {
        let mut amounts: Vec<Amount> = Vec::new();
        let mut i: usize = 0;
        while i < self.secrets.len()
            invariant
                i <= self.secrets.len(),
                amounts@ == premint_amounts(self.secrets@.take(i as int)),
            decreases self.secrets.len() - i,
        {
            proof {
                assert(amounts@.push(self.secrets@[i as int].amount) =~= premint_amounts(
                    self.secrets@.take(i + 1),
                ));
            }
            amounts.push(self.secrets[i].amount);
            i = i + 1;
        }
        proof {
            assert(self.secrets@.take(i as int) =~= self.secrets@);
        }
        Amount::try_sum(&amounts)
    }
}

/// A list of proofs.
pub type Proofs = Vec<Proof>;

/// The amounts of a list of proofs, in their order.
pub open spec fn proof_amounts(proofs: Seq<Proof>) -> Seq<Amount> {
    Seq::new(proofs.len(), |i: int| proofs[i].amount)
}

/// The amounts of a list of blinded messages, in their order.
pub open spec fn output_amounts(outputs: Seq<BlindedMessage>) -> Seq<Amount> {
    Seq::new(outputs.len(), |i: int| outputs[i].amount)
}

/// The amounts of a list of blind signatures, in their order.
pub open spec fn signature_amounts(signatures: Seq<BlindSignature>) -> Seq<Amount> {
    Seq::new(signatures.len(), |i: int| signatures[i].amount)
}

/// The sum of the amounts of a list of proofs, or the overflow error.
pub fn proofs_total_amount(proofs: &Vec<Proof>) -> (r: Result<Amount, crate::amount::Error>)
    ensures
        total(proof_amounts(proofs@)) <= u64::MAX ==> r == Ok::<Amount, crate::amount::Error>(
            Amount(total(proof_amounts(proofs@)) as u64),
        ),
        total(proof_amounts(proofs@)) > u64::MAX ==> r == Err::<Amount, crate::amount::Error>(
            crate::amount::Error::AmountOverflow,
        ),
{
    let mut amounts: Vec<Amount> = Vec::new();
    let mut i: usize = 0;
    while i < proofs.len()
        invariant
            i <= proofs.len(),
            amounts@ == proof_amounts(proofs@.take(i as int)),
        decreases proofs.len() - i,
    {
        proof {
            assert(amounts@.push(proofs@[i as int].amount) =~= proof_amounts(proofs@.take(i + 1)));
        }
        amounts.push(proofs[i].amount);
        i = i + 1;
    }
    proof {
        assert(proofs@.take(i as int) =~= proofs@);
    }
    Amount::try_sum(&amounts)
}

} // verus!
