//! Subscriptions to changes of quotes and proofs.

use crate::nuts::nut00::{CurrencyUnit, PaymentMethod};
use crate::nuts::nut01::PublicKey;
use crate::nuts::nut04::MintQuoteBolt11Response;
use crate::nuts::nut05::MeltQuoteBolt11Response;
use crate::nuts::nut07::ProofState;
use crate::nuts::nutxx::{MeltQuoteMiningShareResponse, MintQuoteMiningShareResponse};
use crate::quote_id::Uuid;
use vstd::prelude::*;

verus! {

/// What a subscription asks for.
#[derive(Debug, PartialEq, Eq, Hash)]
pub struct Params<I> {
    /// The kind of thing to watch.
    pub kind: Kind,
    /// The things to watch, by their identifiers.
    pub filters: Vec<String>,
    /// The identifier of the subscription.
    pub id: I,
}

impl<I> Params<I> {
    /// The identifier of the subscription.
    pub fn as_ref(&self) -> (id: &I)
        ensures
            *id == self.id,
    {
        &self.id
    }
}

/// The subscriptions that a mint supports.
#[derive(Debug, PartialEq, Eq, Hash)]
pub struct SupportedSettings {
    /// The supported methods.
    pub supported: Vec<SupportedMethods>,
}

impl Default for SupportedSettings {
    fn default() -> (s: SupportedSettings)
        ensures
            s.supported@.len() == 0,
    {
        SupportedSettings { supported: Vec::new() }
    }
}

/// The commands that a mint supports for a payment method and a unit.
#[derive(Debug, PartialEq, Eq, Hash)]
pub struct SupportedMethods {
    /// The payment method.
    pub method: PaymentMethod,
    /// The unit.
    pub unit: CurrencyUnit,
    /// The commands.
    pub commands: Vec<String>,
}

impl SupportedMethods {
    /// A method and a unit without commands.
    pub fn new(method: PaymentMethod, unit: CurrencyUnit) -> (m: SupportedMethods)
        ensures
            m.method == method,
            m.unit == unit,
            m.commands@.len() == 0,
    {
        SupportedMethods { method, unit, commands: Vec::new() }
    }
}

impl Default for SupportedMethods {
    fn default() -> (m: SupportedMethods)
        ensures
            m.method == PaymentMethod::Bolt11,
            m.unit == CurrencyUnit::Sat,
            m.commands@.len() == 3,
            m.commands@[0]@ == "bolt11_mint_quote"@,
            m.commands@[1]@ == "bolt11_melt_quote"@,
            m.commands@[2]@ == "proof_state"@,
    {
        let mut commands: Vec<String> = Vec::new();
        commands.push("bolt11_mint_quote".to_owned());
        commands.push("bolt11_melt_quote".to_owned());
        commands.push("proof_state".to_owned());
        SupportedMethods { method: PaymentMethod::Bolt11, unit: CurrencyUnit::Sat, commands }
    }
}

/// What a mint sends to a subscriber. `T` is the form of a quote's identifier.
#[derive(Debug, PartialEq, Eq)]
pub enum NotificationPayload<T> {
    /// The state of a proof.
    ProofState(ProofState),
    /// A Lightning melt quote.
    MeltQuoteBolt11Response(MeltQuoteBolt11Response<T>),
    /// A mining share melt quote.
    MeltQuoteMiningShareResponse(MeltQuoteMiningShareResponse<T>),
    /// A Lightning mint quote.
    MintQuoteBolt11Response(MintQuoteBolt11Response<T>),
    /// A mining share mint quote.
    MintQuoteMiningShareResponse(MintQuoteMiningShareResponse<T>),
}

impl<T> From<ProofState> for NotificationPayload<T> {
    fn from(proof_state: ProofState) -> (p: NotificationPayload<T>) {
        NotificationPayload::ProofState(proof_state)
    }
}

impl<T> vstd::std_specs::convert::FromSpecImpl<ProofState> for NotificationPayload<T> {
    open spec fn obeys_from_spec() -> bool {
        true
    }

    open spec fn from_spec(proof_state: ProofState) -> NotificationPayload<T> {
        NotificationPayload::ProofState(proof_state)
    }
}

impl<T> From<MeltQuoteBolt11Response<T>> for NotificationPayload<T> {
    fn from(melt_quote: MeltQuoteBolt11Response<T>) -> (p: NotificationPayload<T>) {
        NotificationPayload::MeltQuoteBolt11Response(melt_quote)
    }
}

impl<T> vstd::std_specs::convert::FromSpecImpl<MeltQuoteBolt11Response<T>> for NotificationPayload<T> {
    open spec fn obeys_from_spec() -> bool {
        true
    }

    open spec fn from_spec(melt_quote: MeltQuoteBolt11Response<T>) -> NotificationPayload<T> {
        NotificationPayload::MeltQuoteBolt11Response(melt_quote)
    }
}

impl<T> From<MintQuoteBolt11Response<T>> for NotificationPayload<T> {
    fn from(mint_quote: MintQuoteBolt11Response<T>) -> (p: NotificationPayload<T>) {
        NotificationPayload::MintQuoteBolt11Response(mint_quote)
    }
}

impl<T> vstd::std_specs::convert::FromSpecImpl<MintQuoteBolt11Response<T>> for NotificationPayload<T> {
    open spec fn obeys_from_spec() -> bool {
        true
    }

    open spec fn from_spec(mint_quote: MintQuoteBolt11Response<T>) -> NotificationPayload<T> {
        NotificationPayload::MintQuoteBolt11Response(mint_quote)
    }
}

impl<T> From<MeltQuoteMiningShareResponse<T>> for NotificationPayload<T> {
    fn from(melt_quote: MeltQuoteMiningShareResponse<T>) -> (p: NotificationPayload<T>) {
        NotificationPayload::MeltQuoteMiningShareResponse(melt_quote)
    }
}

impl<T> vstd::std_specs::convert::FromSpecImpl<MeltQuoteMiningShareResponse<T>> for NotificationPayload<T> {
    open spec fn obeys_from_spec() -> bool {
        true
    }

    open spec fn from_spec(melt_quote: MeltQuoteMiningShareResponse<T>) -> NotificationPayload<T> {
        NotificationPayload::MeltQuoteMiningShareResponse(melt_quote)
    }
}

impl<T> From<MintQuoteMiningShareResponse<T>> for NotificationPayload<T> {
    fn from(mint_quote: MintQuoteMiningShareResponse<T>) -> (p: NotificationPayload<T>) {
        NotificationPayload::MintQuoteMiningShareResponse(mint_quote)
    }
}

impl<T> vstd::std_specs::convert::FromSpecImpl<MintQuoteMiningShareResponse<T>> for NotificationPayload<T> {
    open spec fn obeys_from_spec() -> bool {
        true
    }

    open spec fn from_spec(mint_quote: MintQuoteMiningShareResponse<T>) -> NotificationPayload<T> {
        NotificationPayload::MintQuoteMiningShareResponse(mint_quote)
    }
}

/// What a subscription watches, once its filter is parsed.
#[derive(Clone, Copy, Debug, PartialEq, Eq, PartialOrd, Ord)]
pub enum Notification {
    /// A proof, by the point of its secret.
    ProofState(PublicKey),
    /// A Lightning melt quote.
    MeltQuoteBolt11(Uuid),
    /// A Lightning mint quote.
    MintQuoteBolt11(Uuid),
    /// A mining share melt quote.
    MeltQuoteMiningShare(Uuid),
    /// A mining share mint quote.
    MintQuoteMiningShare(Uuid),
}

/// The kinds of thing that a subscription can watch.
#[derive(Clone, Copy, Debug, PartialEq, Eq, Structural, PartialOrd, Ord, Hash)]
pub enum Kind {
    /// Lightning melt quotes.
    Bolt11MeltQuote,
    /// Lightning mint quotes.
    Bolt11MintQuote,
    /// Proofs.
    ProofState,
    /// Mining share mint quotes.
    MiningShareMintQuote,
}

/// Why a filter of a subscription could not be parsed.
#[derive(Clone, Copy, Debug, PartialEq, Eq, Structural)]
pub enum Error {
    /// The filter is no identifier of a quote.
    Uuid,
    /// The filter is no public key.
    PublicKey(crate::nuts::nut01::Error),
}

} // verus!
