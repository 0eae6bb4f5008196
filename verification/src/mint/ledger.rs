//! The mint's quotes from their making to their end: made, paid, told of,
//! looked up by the keys they are locked to, and removed when their time is
//! up.

use crate::amount::Amount;
use crate::error::Error;
use crate::hashpool::{MintQuoteLookupItem, MintQuoteStateFilter};
use crate::mint::issue::{keyset_ids, keyset_position};
use crate::mint::keysets::MintKeySet;
use crate::mint::quote::{next_state, refusal, transition, MintQuote, QuoteEvent};
use crate::mint::Mint;
use crate::nuts::nut00::{CurrencyUnit, MintQuoteState, PaymentMethod};
use crate::nuts::nut01::PublicKey;
use crate::nuts::nut02::{be_value, Id};
use crate::nuts::nut04::MintQuoteBolt11Response;
use crate::nuts::nutxx::{mint_quote_state_of, request_verdict, MintQuoteMiningShareRequest, MintQuoteMiningShareResponse, QuoteState};
use crate::quote_id::{uuid_text, Uuid};
use crate::table::{find, is_first, lemma_find, lemma_find_none};
use crate::util::{ascii_chars, ascii_string, hex_encode, hex_of};
use vstd::prelude::*;

verus! {

/// The identifiers of a list of quotes, in their order.
pub open spec fn quote_uuids(quotes: Seq<MintQuote>) -> Seq<Uuid> {
    Seq::new(quotes.len(), |i: int| quotes[i].id)
}

/// A keyset can mint for a unit: it is active and counts in the unit.
pub open spec fn mints_for(keyset: MintKeySet, unit: CurrencyUnit) -> bool {
    keyset.active && keyset.unit@ == unit@
}

/// Keyset `a` is to be preferred to `b`, or is as good: its fee is lower, or
/// the fees are the same and its identifier is not the larger.
pub open spec fn preferred(a: MintKeySet, b: MintKeySet) -> bool {
    a.input_fee_ppk < b.input_fee_ppk || (a.input_fee_ppk == b.input_fee_ppk && be_value(a.id@)
        <= be_value(b.id@))
}

/// The keyset at place `k` is the one that mints for the unit at the lowest
/// fee; among those with the lowest fee, the one with the smallest
/// identifier.
pub open spec fn is_active_pick(keysets: Seq<MintKeySet>, unit: CurrencyUnit, k: int) -> bool {
    &&& 0 <= k < keysets.len()
    &&& mints_for(keysets[k], unit)
    &&& forall|j: int|
        0 <= j < keysets.len() && mints_for(#[trigger] keysets[j], unit) ==> preferred(
            keysets[k],
            keysets[j],
        )
}

/// No keyset mints for the unit.
pub open spec fn none_mints_for(keysets: Seq<MintKeySet>, unit: CurrencyUnit) -> bool {
    forall|j: int| 0 <= j < keysets.len() ==> !mints_for(#[trigger] keysets[j], unit)
}

/// Why a quote for a mining share cannot be made, if it cannot: the first of
/// these that holds. The request is refused; the mint has no active keyset
/// with the identifier; the keyset counts in another unit; the mint has a
/// quote with the identifier.
pub open spec fn share_quote_failure(mint: Mint, id: Uuid, request: MintQuoteMiningShareRequest) -> Option<Error> {
    match request_verdict(request.amount, request.header_hash@, request.blinded_messages@.len()) {
        Err(e) => Some(Error::MiningShare(e)),
        Ok(()) => match find(keyset_ids(mint.keysets@), request.keyset_id@) {
            None => Some(Error::UnknownKeyset),
            Some(k) => if !mint.keysets@[k].active {
                Some(Error::UnknownKeyset)
            } else if mint.keysets@[k].unit@ != request.unit@ {
                Some(Error::UnsupportedUnit)
            } else if find(quote_uuids(mint.quotes@), id).is_some() {
                Some(Error::DuplicateQuote)
            } else {
                None
            },
        },
    }
}

/// The quotes of a list that stay when the time is `now`: those that have
/// not expired, and those that are issued.
pub open spec fn unexpired(quotes: Seq<MintQuote>, now: u64) -> Seq<MintQuote>
    decreases quotes.len(),
{
    if quotes.len() == 0 {
        Seq::empty()
    } else if quotes.last().expired(now) && quotes.last().state != MintQuoteState::Issued {
        unexpired(quotes.drop_last(), now)
    } else {
        unexpired(quotes.drop_last(), now).push(quotes.last())
    }
}

/// Every quote that stays is a quote of the list, has not expired or is
/// issued; and no quote that is issued leaves.
pub proof fn lemma_unexpired(quotes: Seq<MintQuote>, now: u64)
    ensures
        forall|i: int|
            0 <= i < unexpired(quotes, now).len() ==> {
                let quote = #[trigger] unexpired(quotes, now)[i];
                &&& exists|j: int| 0 <= j < quotes.len() && quotes[j] == quote
                &&& !quote.expired(now) || quote.state == MintQuoteState::Issued
            },
        forall|j: int|
            0 <= j < quotes.len() && (!(#[trigger] quotes[j]).expired(now) || quotes[j].state
                == MintQuoteState::Issued) ==> exists|i: int|
                0 <= i < unexpired(quotes, now).len() && unexpired(quotes, now)[i] == quotes[j],
        unexpired(quotes, now).len() <= quotes.len(),
    decreases quotes.len(),
{
    if quotes.len() > 0 {
        let rest = quotes.drop_last();
        lemma_unexpired(rest, now);
        let kept = unexpired(quotes, now);
        let kept_rest = unexpired(rest, now);
        assert forall|i: int| 0 <= i < kept.len() implies {
            let quote = #[trigger] kept[i];
            &&& exists|j: int| 0 <= j < quotes.len() && quotes[j] == quote
            &&& !quote.expired(now) || quote.state == MintQuoteState::Issued
        } by {
            if i < kept_rest.len() {
                assert(kept[i] == kept_rest[i]);
                let j = choose|j: int| 0 <= j < rest.len() && rest[j] == kept_rest[i];
                assert(quotes[j] == kept[i]);
            } else {
                assert(quotes[quotes.len() - 1] == kept[i]);
            }
        }
        assert forall|j: int|
            0 <= j < quotes.len() && (!(#[trigger] quotes[j]).expired(now) || quotes[j].state
                == MintQuoteState::Issued) implies exists|i: int|
            0 <= i < kept.len() && kept[i] == quotes[j] by {
            if j < rest.len() {
                assert(rest[j] == quotes[j]);
                let i = choose|i: int| 0 <= i < kept_rest.len() && kept_rest[i] == rest[j];
                assert(kept[i] == quotes[j]);
            } else {
                assert(kept[kept.len() - 1] == quotes[j]);
            }
        }
    }
}

/// A list of quotes with each lease ended: every quote that was leased to an
/// issuance is paid again, and the others are as they were.
pub open spec fn released(quotes: Seq<MintQuote>) -> Seq<MintQuote> {
    Seq::new(
        quotes.len(),
        |i: int|
            if quotes[i].state == MintQuoteState::Pending {
                MintQuote { state: MintQuoteState::Paid, ..quotes[i] }
            } else {
                quotes[i]
            },
    )
}

/// A key is among the keys of a list.
pub open spec fn is_among(keys: Seq<PublicKey>, key: PublicKey) -> bool {
    exists|j: int| 0 <= j < keys.len() && (#[trigger] keys[j])@ == key@
}

/// Whether a lookup finds a quote: the quote is locked to one of the keys, and
/// the filter lets its state through.
pub open spec fn is_looked_up(quote: MintQuote, pubkeys: Seq<PublicKey>, filter: MintQuoteStateFilter) -> bool {
    quote.pubkey matches Some(key) && is_among(pubkeys, key) && filter.admits(quote.state)
}

/// The quotes that a lookup finds, in the order of the mint's list.
pub open spec fn looked_up(quotes: Seq<MintQuote>, pubkeys: Seq<PublicKey>, filter: MintQuoteStateFilter) -> Seq<
    MintQuote,
>
    decreases quotes.len(),
{
    if quotes.len() == 0 {
        Seq::empty()
    } else if is_looked_up(quotes.last(), pubkeys, filter) {
        looked_up(quotes.drop_last(), pubkeys, filter).push(quotes.last())
    } else {
        looked_up(quotes.drop_last(), pubkeys, filter)
    }
}

/// `item` tells of a quote that is locked to a key: the key, the identifier as
/// text, the payment method, the amount, and the keyset of the quote, or
/// eight zero bytes for a quote that has none yet.
pub open spec fn is_item_of(item: MintQuoteLookupItem, quote: MintQuote) -> bool {
    &&& quote.pubkey matches Some(key) && item.pubkey@ == key@
    &&& item.quote@ == uuid_text(quote.id.0)
    &&& item.method == quote.payment_method
    &&& item.amount == quote.amount
    &&& item.keyset_id@ == match quote.keyset_id {
        Some(id) => id@,
        None => Seq::new(8, |i: int| 0u8),
    }
}

/// The place of the quote with an identifier.
fn uuid_position(quotes: &Vec<MintQuote>, id: Uuid) -> (r: Option<usize>)
    ensures
        match r {
            Some(i) => find(quote_uuids(quotes@), id) == Some(i as int) && i < quotes@.len(),
            None => find(quote_uuids(quotes@), id).is_none(),
        },
{
    let mut i: usize = 0;
    while i < quotes.len()
        invariant
            i <= quotes.len(),
            forall|j: int| 0 <= j < i ==> quote_uuids(quotes@)[j] != id,
        decreases quotes.len() - i,
    {
        if quotes[i].id == id {
            proof {
                assert(is_first(quote_uuids(quotes@), id, i as int));
                lemma_find(quote_uuids(quotes@), id, i as int);
            }
            return Some(i);
        }
        i = i + 1;
    }
    proof {
        lemma_find_none(quote_uuids(quotes@), id);
    }
    None
}

/// Whether a key is among the keys of a list.
fn among(keys: &Vec<PublicKey>, key: &PublicKey) -> (b: bool)
    ensures
        b == is_among(keys@, *key),
{
    let mut j: usize = 0;
    while j < keys.len()
        invariant
            j <= keys.len(),
            forall|k: int| 0 <= k < j ==> (#[trigger] keys@[k])@ != key@,
        decreases keys.len() - j,
    {
        if keys[j] == *key {
            return true;
        }
        j = j + 1;
    }
    false
}

impl Mint {
    /// Takes a keyset into the registry, at the end.
    pub fn add_keyset(&mut self, keyset: MintKeySet)
        ensures
            final(self).keysets@ == old(self).keysets@.push(keyset),
            final(self).quotes == old(self).quotes,
            final(self).max_outputs == old(self).max_outputs,
            final(self).mint_ttl == old(self).mint_ttl,
    {
        self.keysets.push(keyset);
    }

    /// The keyset that mints for a unit: of the active keysets that count in
    /// the unit, the one with the lowest fee; among those with the lowest fee,
    /// the one with the smallest identifier.
    pub fn pick_active(&self, unit: &CurrencyUnit) -> (r: Result<Id, Error>)
        ensures
            match r {
                Ok(id) => exists|k: int| is_active_pick(self.keysets@, *unit, k) && self.keysets@[k].id == id,
                Err(e) => e == Error::NoActiveKeyset && none_mints_for(self.keysets@, *unit),
            },
    {
        let mut best: Option<usize> = None;
        let mut best_id: u64 = 0;
        let mut i: usize = 0;
        while i < self.keysets.len()
            invariant
                i <= self.keysets.len(),
                match best {
                    Some(b) => {
                        &&& b < i
                        &&& mints_for(self.keysets@[b as int], *unit)
                        &&& best_id as nat == be_value(self.keysets@[b as int].id@)
                        &&& forall|j: int|
                            0 <= j < i && mints_for(#[trigger] self.keysets@[j], *unit) ==> preferred(
                                self.keysets@[b as int],
                                self.keysets@[j],
                            )
                    },
                    None => forall|j: int| 0 <= j < i ==> !mints_for(#[trigger] self.keysets@[j], *unit),
                },
            decreases self.keysets.len() - i,
        {
            if self.keysets[i].active && self.keysets[i].unit == *unit {
                let id: u64 = self.keysets[i].id.to_u64();
                let better: bool = match best {
                    Some(b) => self.keysets[i].input_fee_ppk < self.keysets[b].input_fee_ppk || (
                    self.keysets[i].input_fee_ppk == self.keysets[b].input_fee_ppk && id < best_id),
                    None => true,
                };
                if better {
                    best = Some(i);
                    best_id = id;
                }
            }
            i = i + 1;
        }
        match best {
            Some(b) => {
                proof {
                    assert(is_active_pick(self.keysets@, *unit, b as int));
                }
                Ok(self.keysets[b].id)
            },
            None => Err(Error::NoActiveKeyset),
        }
    }

    /// Makes a quote for a mining share, under the identifier `id`: the share
    /// counts as payment, so the quote is paid from the start; it does not
    /// expire, is locked to the key of the request and is bound to the keyset
    /// of the request, which must be active and count in the unit of the
    /// request.
    pub fn create_mint_mining_share_quote(&mut self, id: Uuid, request: &MintQuoteMiningShareRequest) -> (r:
        Result<MintQuoteMiningShareResponse<Uuid>, Error>)
        ensures
            old(self).wf() ==> final(self).wf(),
            final(self).keysets == old(self).keysets,
            final(self).max_outputs == old(self).max_outputs,
            final(self).mint_ttl == old(self).mint_ttl,
            match share_quote_failure(*old(self), id, *request) {
                Some(e) => r == Err::<MintQuoteMiningShareResponse<Uuid>, Error>(e) && final(self).quotes@
                    == old(self).quotes@,
                None => {
                    &&& r matches Ok(response)
                    &&& final(self).quotes@.len() == old(self).quotes@.len() + 1
                    &&& final(self).quotes@.drop_last() == old(self).quotes@
                    &&& ({
                        let quote = final(self).quotes@.last();
                        &&& quote.id == id
                        &&& quote.payment_method == PaymentMethod::MiningShare
                        &&& quote.unit == request.unit
                        &&& quote.amount == request.amount
                        &&& quote.request@ == ascii_chars(hex_of(request.header_hash@))
                        &&& quote.pubkey == Some(request.pubkey)
                        &&& quote.state == MintQuoteState::Paid
                        &&& quote.expiry == 0
                        &&& quote.amount_paid == request.amount
                        &&& quote.amount_issued == Amount(0)
                        &&& quote.keyset_id == Some(request.keyset_id)
                        &&& quote.wf()
                        &&& response.quote == id
                        &&& response.request == quote.request
                        &&& response.amount == Some(request.amount)
                        &&& response.unit == Some(request.unit)
                        &&& response.state == QuoteState::Paid
                        &&& response.expiry.is_none()
                        &&& response.pubkey == Some(request.pubkey)
                        &&& response.amount_issued == Amount(0)
                        &&& response.keyset_id == request.keyset_id
                    })
                },
            },
    {
        match request.validate() {
            Ok(()) => {},
            Err(e) => {
                return Err(Error::MiningShare(e));
            },
        }
        let k: usize = match keyset_position(&self.keysets, &request.keyset_id) {
            Some(k) => k,
            None => {
                return Err(Error::UnknownKeyset);
            },
        };
        if !self.keysets[k].active {
            return Err(Error::UnknownKeyset);
        }
        if self.keysets[k].unit != request.unit {
            return Err(Error::UnsupportedUnit);
        }
        if uuid_position(&self.quotes, id).is_some() {
            return Err(Error::DuplicateQuote);
        }
        let text: String = ascii_string(hex_encode(request.header_hash.as_slice()));
        let quote = MintQuote {
            id,
            payment_method: PaymentMethod::MiningShare,
            unit: request.unit.clone(),
            amount: request.amount,
            request: text.clone(),
            pubkey: Some(request.pubkey),
            state: MintQuoteState::Paid,
            expiry: 0,
            amount_paid: request.amount,
            amount_issued: Amount(0),
            keyset_id: Some(request.keyset_id),
        };
        let response = MintQuoteMiningShareResponse {
            quote: id,
            request: text,
            amount: Some(request.amount),
            unit: Some(request.unit.clone()),
            state: QuoteState::Paid,
            expiry: None,
            pubkey: Some(request.pubkey),
            amount_issued: Amount(0),
            keyset_id: request.keyset_id,
        };
        self.quotes.push(quote);
        proof {
            assert(self.quotes@.drop_last() =~= old(self).quotes@);
            if old(self).wf() {
                assert forall|i: int| 0 <= i < self.quotes@.len() implies (#[trigger] self.quotes@[i]).wf() by {
                    if i < old(self).quotes@.len() {
                        assert(old(self).quotes@[i].wf());
                    }
                }
            }
        }
        Ok(response)
    }

    /// Makes a quote that a Lightning invoice pays, under the identifier
    /// `id`: the quote is unpaid, and valid from `now` for the time that the
    /// mint gives such quotes. The unit must be one that the mint has an
    /// active keyset for.
    pub fn create_mint_bolt11_quote(
        &mut self,
        id: Uuid,
        amount: Amount,
        unit: CurrencyUnit,
        request: String,
        pubkey: Option<PublicKey>,
        now: u64,
    ) -> (r: Result<MintQuoteBolt11Response<Uuid>, Error>)
        ensures
            old(self).wf() ==> final(self).wf(),
            final(self).keysets == old(self).keysets,
            final(self).max_outputs == old(self).max_outputs,
            final(self).mint_ttl == old(self).mint_ttl,
            if none_mints_for(old(self).keysets@, unit) {
                r == Err::<MintQuoteBolt11Response<Uuid>, Error>(Error::UnsupportedUnit)
                    && final(self).quotes@ == old(self).quotes@
            } else if find(quote_uuids(old(self).quotes@), id).is_some() {
                r == Err::<MintQuoteBolt11Response<Uuid>, Error>(Error::DuplicateQuote)
                    && final(self).quotes@ == old(self).quotes@
            } else {
                let expiry = if now + old(self).mint_ttl > u64::MAX {
                    u64::MAX
                } else {
                    (now + old(self).mint_ttl) as u64
                };
                &&& r == Ok::<MintQuoteBolt11Response<Uuid>, Error>(
                    MintQuoteBolt11Response {
                        quote: id,
                        request,
                        amount: Some(amount),
                        unit: Some(unit),
                        state: MintQuoteState::Unpaid,
                        expiry: Some(expiry),
                        pubkey,
                    },
                )
                &&& final(self).quotes@ == old(self).quotes@.push(
                    MintQuote {
                        id,
                        payment_method: PaymentMethod::Bolt11,
                        unit,
                        amount,
                        request,
                        pubkey,
                        state: MintQuoteState::Unpaid,
                        expiry,
                        amount_paid: Amount(0),
                        amount_issued: Amount(0),
                        keyset_id: None,
                    },
                )
            },
    {
        match self.pick_active(&unit) {
            Ok(_) => {},
            Err(_) => {
                return Err(Error::UnsupportedUnit);
            },
        }
        if uuid_position(&self.quotes, id).is_some() {
            return Err(Error::DuplicateQuote);
        }
        let expiry: u64 = match now.checked_add(self.mint_ttl) {
            Some(e) => e,
            None => u64::MAX,
        };
        let quote = MintQuote {
            id,
            payment_method: PaymentMethod::Bolt11,
            unit: unit.clone(),
            amount,
            request: request.clone(),
            pubkey,
            state: MintQuoteState::Unpaid,
            expiry,
            amount_paid: Amount(0),
            amount_issued: Amount(0),
            keyset_id: None,
        };
        self.quotes.push(quote);
        proof {
            if old(self).wf() {
                assert forall|i: int| 0 <= i < self.quotes@.len() implies (#[trigger] self.quotes@[i]).wf() by {
                    if i < old(self).quotes@.len() {
                        assert(old(self).quotes@[i].wf());
                    }
                }
            }
        }
        Ok(
            MintQuoteBolt11Response {
                quote: id,
                request,
                amount: Some(amount),
                unit: Some(unit),
                state: MintQuoteState::Unpaid,
                expiry: Some(expiry),
                pubkey,
            },
        )
    }

    /// Records that the payment for a quote came in: an unpaid quote becomes
    /// paid, with the whole of its amount. A quote in another state stays as
    /// it is, and the error says why the payment cannot be taken.
    pub fn pay_mint_quote(&mut self, id: Uuid) -> (r: Result<MintQuoteState, Error>)
        ensures
            old(self).wf() ==> final(self).wf(),
            final(self).keysets == old(self).keysets,
            final(self).max_outputs == old(self).max_outputs,
            final(self).mint_ttl == old(self).mint_ttl,
            match find(quote_uuids(old(self).quotes@), id) {
                None => r == Err::<MintQuoteState, Error>(Error::UnknownQuote) && final(self).quotes@
                    == old(self).quotes@,
                Some(q) => {
                    let quote = old(self).quotes@[q];
                    match next_state(quote.state, QuoteEvent::PaymentReceived) {
                        None => r == Err::<MintQuoteState, Error>(
                            refusal(quote.state, QuoteEvent::PaymentReceived),
                        ) && final(self).quotes@ == old(self).quotes@,
                        Some(next) => r == Ok::<MintQuoteState, Error>(next) && final(self).quotes@ == old(
                            self,
                        ).quotes@.update(
                            q,
                            MintQuote { state: next, amount_paid: quote.amount, ..quote },
                        ),
                    }
                },
            },
    {
        let q: usize = match uuid_position(&self.quotes, id) {
            Some(q) => q,
            None => {
                return Err(Error::UnknownQuote);
            },
        };
        let next: MintQuoteState = match transition(self.quotes[q].state, QuoteEvent::PaymentReceived) {
            Ok(next) => next,
            Err(e) => {
                return Err(e);
            },
        };
        let mut quote: MintQuote = self.quotes[q].clone();
        quote.state = next;
        quote.amount_paid = quote.amount;
        self.quotes[q] = quote;
        proof {
            if old(self).wf() {
                assert(old(self).quotes@[q as int].wf());
                assert forall|i: int| 0 <= i < self.quotes@.len() implies (#[trigger] self.quotes@[i]).wf() by {
                    if i != q {
                        assert(old(self).quotes@[i].wf());
                    }
                }
            }
        }
        Ok(next)
    }

    /// What the mint tells of a mining share quote.
    pub fn mint_quote_state_mining_share(&self, id: Uuid) -> (r: Result<MintQuoteMiningShareResponse<Uuid>, Error>)
        ensures
            match find(quote_uuids(self.quotes@), id) {
                None => r == Err::<MintQuoteMiningShareResponse<Uuid>, Error>(Error::UnknownQuote),
                Some(q) => {
                    let quote = self.quotes@[q];
                    if quote.payment_method != PaymentMethod::MiningShare || quote.state
                        == MintQuoteState::Unpaid || quote.keyset_id.is_none() {
                        r == Err::<MintQuoteMiningShareResponse<Uuid>, Error>(
                            Error::UnsupportedPaymentMethod,
                        )
                    } else {
                        &&& r matches Ok(response)
                        &&& response.quote == id
                        &&& response.request == quote.request
                        &&& response.amount == Some(quote.amount)
                        &&& response.unit == Some(quote.unit)
                        &&& mint_quote_state_of(response.state) == quote.state
                        &&& response.expiry == if quote.expiry == 0 {
                            None
                        } else {
                            Some(quote.expiry)
                        }
                        &&& response.pubkey == quote.pubkey
                        &&& response.amount_issued == quote.amount_issued
                        &&& Some(response.keyset_id) == quote.keyset_id
                    }
                },
            },
    {
        let q: usize = match uuid_position(&self.quotes, id) {
            Some(q) => q,
            None => {
                return Err(Error::UnknownQuote);
            },
        };
        let quote: &MintQuote = &self.quotes[q];
        if quote.payment_method != PaymentMethod::MiningShare {
            return Err(Error::UnsupportedPaymentMethod);
        }
        let state: QuoteState = match QuoteState::from_mint_quote_state(quote.state) {
            Some(s) => s,
            None => {
                return Err(Error::UnsupportedPaymentMethod);
            },
        };
        let keyset_id: Id = match quote.keyset_id {
            Some(k) => k,
            None => {
                return Err(Error::UnsupportedPaymentMethod);
            },
        };
        Ok(
            MintQuoteMiningShareResponse {
                quote: id,
                request: quote.request.clone(),
                amount: Some(quote.amount),
                unit: Some(quote.unit.clone()),
                state,
                expiry: if quote.expiry == 0 {
                    None
                } else {
                    Some(quote.expiry)
                },
                pubkey: quote.pubkey,
                amount_issued: quote.amount_issued,
                keyset_id,
            },
        )
    }

    /// Removes the quotes whose time is up at `now` and that are not issued,
    /// and returns how many were removed. Issued quotes stay, so that a second
    /// request for one is still told that it was issued.
    pub fn remove_expired_quotes(&mut self, now: u64) -> (removed: usize)
        ensures
            old(self).wf() ==> final(self).wf(),
            final(self).quotes@ == unexpired(old(self).quotes@, now),
            removed == old(self).quotes@.len() - final(self).quotes@.len(),
            final(self).keysets == old(self).keysets,
            final(self).max_outputs == old(self).max_outputs,
            final(self).mint_ttl == old(self).mint_ttl,
    {
        let mut kept: Vec<MintQuote> = Vec::new();
        let mut i: usize = 0;
        while i < self.quotes.len()
            invariant
                i <= self.quotes.len(),
                self.quotes == old(self).quotes,
                kept@ == unexpired(self.quotes@.take(i as int), now),
                kept@.len() <= i,
            decreases self.quotes.len() - i,
        {
            proof {
                assert(self.quotes@.take(i + 1).drop_last() =~= self.quotes@.take(i as int));
            }
            let quote: &MintQuote = &self.quotes[i];
            if !(quote.is_expired(now) && quote.state != MintQuoteState::Issued) {
                kept.push(quote.clone());
            }
            i = i + 1;
        }
        proof {
            assert(self.quotes@.take(i as int) =~= self.quotes@);
        }
        let removed: usize = self.quotes.len() - kept.len();
        proof {
            lemma_unexpired(self.quotes@, now);
            if old(self).wf() {
                assert forall|i: int| 0 <= i < kept@.len() implies (#[trigger] kept@[i]).wf() by {
                    let j = choose|j: int| 0 <= j < self.quotes@.len() && self.quotes@[j] == kept@[i];
                    assert(old(self).quotes@[j].wf());
                }
            }
        }
        self.quotes = kept;
        removed
    }

    /// The quotes that are locked to one of the keys and whose state the
    /// filter lets through, in the order of the mint's list. A caller that
    /// needs another order sorts.
    pub fn lookup_mint_quotes_by_pubkeys(&self, pubkeys: &Vec<PublicKey>, state_filter: MintQuoteStateFilter) -> (r:
        Result<Vec<MintQuoteLookupItem>, Error>)
        ensures
            r matches Ok(items) && items@.len() == looked_up(self.quotes@, pubkeys@, state_filter).len()
                && forall|i: int|
                0 <= i < items@.len() ==> is_item_of(
                    #[trigger] items@[i],
                    looked_up(self.quotes@, pubkeys@, state_filter)[i],
                ),
    {
        let mut items: Vec<MintQuoteLookupItem> = Vec::new();
        let mut i: usize = 0;
        while i < self.quotes.len()
            invariant
                i <= self.quotes.len(),
                items@.len() == looked_up(self.quotes@.take(i as int), pubkeys@, state_filter).len(),
                forall|k: int|
                    0 <= k < items@.len() ==> is_item_of(
                        #[trigger] items@[k],
                        looked_up(self.quotes@.take(i as int), pubkeys@, state_filter)[k],
                    ),
            decreases self.quotes.len() - i,
        {
            proof {
                assert(self.quotes@.take(i + 1).drop_last() =~= self.quotes@.take(i as int));
            }
            let quote: &MintQuote = &self.quotes[i];
            match &quote.pubkey {
                Some(key) => {
                    if among(pubkeys, key) && state_filter.matches(quote.state) {
                        let keyset_id: Id = match quote.keyset_id {
                            Some(id) => id,
                            None => Id { bytes: [0u8; 8] },
                        };
                        proof {
                            assert(keyset_id@ =~= match quote.keyset_id {
                                Some(id) => id@,
                                None => Seq::new(8, |i: int| 0u8),
                            });
                        }
                        items.push(
                            MintQuoteLookupItem {
                                pubkey: *key,
                                quote: quote.id.to_string(),
                                method: quote.payment_method,
                                amount: quote.amount,
                                keyset_id,
                            },
                        );
                    }
                },
                None => {},
            }
            i = i + 1;
        }
        proof {
            assert(self.quotes@.take(i as int) =~= self.quotes@);
        }
        Ok(items)
    }

    /// Ends the lease of every quote that an issuance left pending: such a
    /// quote has no signatures out, and is paid again. Returns how many
    /// quotes were released.
    pub fn release_pending_quotes(&mut self) -> (count: usize)
        ensures
            old(self).wf() ==> final(self).wf(),
            final(self).quotes@ == released(old(self).quotes@),
            final(self).keysets == old(self).keysets,
            final(self).max_outputs == old(self).max_outputs,
            final(self).mint_ttl == old(self).mint_ttl,
    {
        let mut count: usize = 0;
        let mut i: usize = 0;
        while i < self.quotes.len()
            invariant
                i <= self.quotes.len(),
                count <= i,
                self.quotes@.len() == old(self).quotes@.len(),
                forall|k: int| 0 <= k < i ==> #[trigger] self.quotes@[k] == released(old(self).quotes@)[k],
                forall|k: int|
                    i <= k < self.quotes@.len() ==> #[trigger] self.quotes@[k] == old(self).quotes@[k],
                self.keysets == old(self).keysets,
                self.max_outputs == old(self).max_outputs,
                self.mint_ttl == old(self).mint_ttl,
            decreases self.quotes.len() - i,
        {
            match transition(self.quotes[i].state, QuoteEvent::IssuanceFails) {
                Ok(state) => {
                    let mut quote: MintQuote = self.quotes[i].clone();
                    quote.state = state;
                    self.quotes[i] = quote;
                    count = count + 1;
                },
                Err(_) => {},
            }
            i = i + 1;
        }
        proof {
            assert(self.quotes@ =~= released(old(self).quotes@));
            if old(self).wf() {
                assert forall|k: int| 0 <= k < self.quotes@.len() implies (#[trigger] self.quotes@[k]).wf() by {
                    assert(old(self).quotes@[k].wf());
                }
            }
        }
        count
    }

    /// The time that a quote for a Lightning payment is valid, in seconds.
    pub fn get_quote_ttl(&self) -> (ttl: u64)
        ensures
            ttl == self.mint_ttl,
    {
        self.mint_ttl
    }

    /// Sets the time that a quote for a Lightning payment is valid, in
    /// seconds. The quotes that the mint has keep their expiry.
    pub fn set_quote_ttl(&mut self, ttl: u64)
        ensures
            final(self).mint_ttl == ttl,
            final(self).quotes == old(self).quotes,
            final(self).keysets == old(self).keysets,
            final(self).max_outputs == old(self).max_outputs,
    {
        self.mint_ttl = ttl;
    }
}

} // verus!
