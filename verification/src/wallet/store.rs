//! What a wallet keeps: quotes, keysets, keys, counters, proofs and
//! transactions, held in memory.
//!
//! Every table is a list. A record is found by its key at the first place that
//! has the key, and putting a record replaces the one found or, where none is
//! found, appends.

use crate::error::Error;
use crate::nuts::nut00::{PreMint, PreMintSecrets};
use crate::nuts::nut01::{Keys, PublicKey};
use crate::nuts::nut02::{Id, KeySetInfo};
use crate::table::{find, is_first, lemma_find, lemma_find_none, lemma_found};
use crate::wallet::types::{MintInfo, MintQuote, ProofInfo, Transaction};
use vstd::prelude::*;

verus! {

/// The identifiers of a list of quotes, in their order.
pub open spec fn quote_ids(quotes: Seq<MintQuote>) -> Seq<Seq<char>> {
    Seq::new(quotes.len(), |i: int| quotes[i].id@)
}

/// The keysets of a list of counters, in their order.
pub open spec fn counter_ids(counters: Seq<(Id, u32)>) -> Seq<Seq<u8>> {
    Seq::new(counters.len(), |i: int| counters[i].0@)
}

/// The keysets of a list of keys, in their order.
pub open spec fn keys_ids(keys: Seq<(Id, Keys)>) -> Seq<Seq<u8>> {
    Seq::new(keys.len(), |i: int| keys[i].0@)
}

/// The mints and identifiers of a list of keysets, in their order.
pub open spec fn keyset_ids(keysets: Seq<(String, KeySetInfo)>) -> Seq<(Seq<char>, Seq<u8>)> {
    Seq::new(keysets.len(), |i: int| (keysets[i].0@, keysets[i].1.id@))
}

/// The addresses of a list of mints, in their order.
pub open spec fn mint_urls(mints: Seq<(String, MintInfo)>) -> Seq<Seq<char>> {
    Seq::new(mints.len(), |i: int| mints[i].0@)
}

/// The quotes of a list of pre-mint secrets, in their order.
pub open spec fn premint_ids(premints: Seq<(String, PreMintSecrets)>) -> Seq<Seq<char>> {
    Seq::new(premints.len(), |i: int| premints[i].0@)
}

/// The quote with an identifier, if the list has one.
pub open spec fn quote_of(quotes: Seq<MintQuote>, id: Seq<char>) -> Option<MintQuote> {
    match find(quote_ids(quotes), id) {
        Some(i) => Some(quotes[i]),
        None => None,
    }
}

/// A list of quotes with a quote put in.
pub open spec fn with_quote(quotes: Seq<MintQuote>, quote: MintQuote) -> Seq<MintQuote> {
    match find(quote_ids(quotes), quote.id@) {
        Some(i) => quotes.update(i, quote),
        None => quotes.push(quote),
    }
}

/// A list of quotes without the quote that has an identifier.
pub open spec fn without_quote(quotes: Seq<MintQuote>, id: Seq<char>) -> Seq<MintQuote> {
    match find(quote_ids(quotes), id) {
        Some(i) => quotes.remove(i),
        None => quotes,
    }
}

/// The counter of a keyset: the number of secrets that were derived under it.
/// A keyset without a record has derived none.
pub open spec fn counter_of(counters: Seq<(Id, u32)>, id: Seq<u8>) -> u32 {
    match find(counter_ids(counters), id) {
        Some(i) => counters[i].1,
        None => 0,
    }
}

/// A list of counters with the counter of a keyset set.
pub open spec fn with_counter(counters: Seq<(Id, u32)>, id: Id, value: u32) -> Seq<(Id, u32)> {
    match find(counter_ids(counters), id@) {
        Some(i) => counters.update(i, (id, value)),
        None => counters.push((id, value)),
    }
}

/// The keys of a keyset, if the list has them.
pub open spec fn keys_of(keys: Seq<(Id, Keys)>, id: Seq<u8>) -> Option<Keys> {
    match find(keys_ids(keys), id) {
        Some(i) => Some(keys[i].1),
        None => None,
    }
}

/// The keysets of a mint, in the order of the list.
pub open spec fn keysets_of(keysets: Seq<(String, KeySetInfo)>, mint_url: Seq<char>) -> Seq<KeySetInfo>
    decreases keysets.len(),
{
    if keysets.len() == 0 {
        Seq::empty()
    } else if keysets.last().0@ == mint_url {
        keysets_of(keysets.drop_last(), mint_url).push(keysets.last().1)
    } else {
        keysets_of(keysets.drop_last(), mint_url)
    }
}

/// A list of keysets with a keyset of a mint put in.
pub open spec fn with_keyset(keysets: Seq<(String, KeySetInfo)>, mint_url: String, info: KeySetInfo) -> Seq<
    (String, KeySetInfo),
> {
    match find(keyset_ids(keysets), (mint_url@, info.id@)) {
        Some(i) => keysets.update(i, (mint_url, info)),
        None => keysets.push((mint_url, info)),
    }
}

/// What a mint's record says, if the list has one.
pub open spec fn mint_of(mints: Seq<(String, MintInfo)>, mint_url: Seq<char>) -> Option<MintInfo> {
    match find(mint_urls(mints), mint_url) {
        Some(i) => Some(mints[i].1),
        None => None,
    }
}

/// The pre-mint secrets of a quote, if the list has them.
pub open spec fn premint_of(premints: Seq<(String, PreMintSecrets)>, id: Seq<char>) -> Option<
    PreMintSecrets,
> {
    match find(premint_ids(premints), id) {
        Some(i) => Some(premints[i].1),
        None => None,
    }
}

/// Setting a counter sets it, and leaves the counters of other keysets as
/// they were.
pub proof fn lemma_with_counter(counters: Seq<(Id, u32)>, id: Id, value: u32, other: Seq<u8>)
    ensures
        counter_of(with_counter(counters, id, value), id@) == value,
        other != id@ ==> counter_of(with_counter(counters, id, value), other) == counter_of(
            counters,
            other,
        ),
{
    let before = counter_ids(counters);
    let after_list = with_counter(counters, id, value);
    let after = counter_ids(after_list);
    lemma_found(before, id@);
    lemma_found(before, other);
    match find(before, id@) {
        Some(i) => {
            assert(after =~= before);
            assert(after_list[i].1 == value);
        },
        None => {
            assert(after =~= before.push(id@));
            assert(is_first(after, id@, before.len() as int));
            lemma_find(after, id@, before.len() as int);
            if other != id@ {
                match find(before, other) {
                    Some(k) => {
                        assert(is_first(after, other, k));
                        lemma_find(after, other, k);
                    },
                    None => {
                        lemma_find_none(after, other);
                    },
                }
            }
        },
    }
}

/// Putting a quote in makes it the quote of its identifier, and leaves the
/// quotes of other identifiers as they were.
pub proof fn lemma_with_quote(quotes: Seq<MintQuote>, quote: MintQuote, other: Seq<char>)
    ensures
        quote_of(with_quote(quotes, quote), quote.id@) == Some(quote),
        other != quote.id@ ==> quote_of(with_quote(quotes, quote), other) == quote_of(quotes, other),
{
    let before = quote_ids(quotes);
    let after_list = with_quote(quotes, quote);
    let after = quote_ids(after_list);
    lemma_found(before, quote.id@);
    lemma_found(before, other);
    match find(before, quote.id@) {
        Some(i) => {
            assert(after =~= before);
            if other != quote.id@ {
                match find(before, other) {
                    Some(k) => {
                        assert(k != i);
                    },
                    None => {},
                }
            }
        },
        None => {
            assert(after =~= before.push(quote.id@));
            assert(is_first(after, quote.id@, before.len() as int));
            lemma_find(after, quote.id@, before.len() as int);
            if other != quote.id@ {
                match find(before, other) {
                    Some(k) => {
                        assert(is_first(after, other, k));
                        lemma_find(after, other, k);
                    },
                    None => {
                        lemma_find_none(after, other);
                    },
                }
            }
        },
    }
}

/// A point is among the points of a list.
pub open spec fn is_listed(ys: Seq<PublicKey>, y: PublicKey) -> bool {
    exists|j: int| 0 <= j < ys.len() && (#[trigger] ys[j])@ == y@
}

/// The proofs of a list whose points are not among the points of another
/// list, in their order.
pub open spec fn without_proofs(proofs: Seq<ProofInfo>, ys: Seq<PublicKey>) -> Seq<ProofInfo>
    decreases proofs.len(),
{
    if proofs.len() == 0 {
        Seq::empty()
    } else if is_listed(ys, proofs.last().y) {
        without_proofs(proofs.drop_last(), ys)
    } else {
        without_proofs(proofs.drop_last(), ys).push(proofs.last())
    }
}

/// What [`WalletStore::increment_keyset_counter`] does: `after` is the store
/// that it leaves of the store `before`, and `r` is what it returns.
pub open spec fn is_incremented(before: WalletStore, after: WalletStore, id: Id, count: u32, r: Result<u32, Error>) -> bool {
    match r {
        Ok(counter) => {
            &&& counter == counter_of(before.keyset_counters@, id@) + count
            &&& after.keyset_counters@ == with_counter(before.keyset_counters@, id, counter)
            &&& after == (WalletStore { keyset_counters: after.keyset_counters, ..before })
        },
        Err(e) => {
            &&& e == Error::CounterOverflow
            &&& counter_of(before.keyset_counters@, id@) + count > u32::MAX
            &&& after == before
        },
    }
}

/// The tables of a wallet.
#[derive(Debug, PartialEq, Eq)]
pub struct WalletStore {
    /// What the wallet knows of each mint, by the mint's address.
    pub mints: Vec<(String, MintInfo)>,
    /// The keysets of each mint, by the mint's address.
    pub keysets: Vec<(String, KeySetInfo)>,
    /// The public keys of each keyset.
    pub keys: Vec<(Id, Keys)>,
    /// The mint quotes.
    pub mint_quotes: Vec<MintQuote>,
    /// The pre-mint secrets of each quote, by the quote's identifier.
    pub premint_secrets: Vec<(String, PreMintSecrets)>,
    /// The counter of each keyset.
    pub keyset_counters: Vec<(Id, u32)>,
    /// The proofs.
    pub proofs: Vec<ProofInfo>,
    /// The transactions.
    pub transactions: Vec<Transaction>,
}

impl Default for WalletStore {
    fn default() -> (s: WalletStore)
        ensures
            s.mints@.len() == 0,
            s.keysets@.len() == 0,
            s.keys@.len() == 0,
            s.mint_quotes@.len() == 0,
            s.premint_secrets@.len() == 0,
            s.keyset_counters@.len() == 0,
            s.proofs@.len() == 0,
            s.transactions@.len() == 0,
    {
        WalletStore {
            mints: Vec::new(),
            keysets: Vec::new(),
            keys: Vec::new(),
            mint_quotes: Vec::new(),
            premint_secrets: Vec::new(),
            keyset_counters: Vec::new(),
            proofs: Vec::new(),
            transactions: Vec::new(),
        }
    }
}

/// The place of the quote with an identifier.
fn quote_position(quotes: &Vec<MintQuote>, id: &str) -> (r: Option<usize>)
    ensures
        match r {
            Some(i) => find(quote_ids(quotes@), id@) == Some(i as int) && i < quotes@.len(),
            None => find(quote_ids(quotes@), id@).is_none(),
        },
{
    let key: String = id.to_owned();
    let mut i: usize = 0;
    while i < quotes.len()
        invariant
            i <= quotes.len(),
            key@ == id@,
            forall|j: int| 0 <= j < i ==> quote_ids(quotes@)[j] != id@,
        decreases quotes.len() - i,
    {
        if quotes[i].id == key {
            proof {
                assert(is_first(quote_ids(quotes@), id@, i as int));
                lemma_find(quote_ids(quotes@), id@, i as int);
            }
            return Some(i);
        }
        i = i + 1;
    }
    proof {
        lemma_find_none(quote_ids(quotes@), id@);
    }
    None
}

/// The place of the counter of a keyset.
fn counter_position(counters: &Vec<(Id, u32)>, id: &Id) -> (r: Option<usize>)
    ensures
        match r {
            Some(i) => find(counter_ids(counters@), id@) == Some(i as int) && i < counters@.len(),
            None => find(counter_ids(counters@), id@).is_none(),
        },
{
    let mut i: usize = 0;
    while i < counters.len()
        invariant
            i <= counters.len(),
            forall|j: int| 0 <= j < i ==> counter_ids(counters@)[j] != id@,
        decreases counters.len() - i,
    {
        if counters[i].0 == *id {
            proof {
                assert(is_first(counter_ids(counters@), id@, i as int));
                lemma_find(counter_ids(counters@), id@, i as int);
            }
            return Some(i);
        }
        i = i + 1;
    }
    proof {
        lemma_find_none(counter_ids(counters@), id@);
    }
    None
}

/// The place of the keys of a keyset.
fn keys_position(keys: &Vec<(Id, Keys)>, id: &Id) -> (r: Option<usize>)
    ensures
        match r {
            Some(i) => find(keys_ids(keys@), id@) == Some(i as int) && i < keys@.len(),
            None => find(keys_ids(keys@), id@).is_none(),
        },
{
    let mut i: usize = 0;
    while i < keys.len()
        invariant
            i <= keys.len(),
            forall|j: int| 0 <= j < i ==> keys_ids(keys@)[j] != id@,
        decreases keys.len() - i,
    {
        if keys[i].0 == *id {
            proof {
                assert(is_first(keys_ids(keys@), id@, i as int));
                lemma_find(keys_ids(keys@), id@, i as int);
            }
            return Some(i);
        }
        i = i + 1;
    }
    proof {
        lemma_find_none(keys_ids(keys@), id@);
    }
    None
}

/// The place of a keyset of a mint.
fn keyset_position(keysets: &Vec<(String, KeySetInfo)>, mint_url: &String, id: &Id) -> (r: Option<usize>)
    ensures
        match r {
            Some(i) => find(keyset_ids(keysets@), (mint_url@, id@)) == Some(i as int) && i
                < keysets@.len(),
            None => find(keyset_ids(keysets@), (mint_url@, id@)).is_none(),
        },
{
    let mut i: usize = 0;
    while i < keysets.len()
        invariant
            i <= keysets.len(),
            forall|j: int| 0 <= j < i ==> keyset_ids(keysets@)[j] != (mint_url@, id@),
        decreases keysets.len() - i,
    {
        if keysets[i].0 == *mint_url && keysets[i].1.id == *id {
            proof {
                assert(is_first(keyset_ids(keysets@), (mint_url@, id@), i as int));
                lemma_find(keyset_ids(keysets@), (mint_url@, id@), i as int);
            }
            return Some(i);
        }
        i = i + 1;
    }
    proof {
        lemma_find_none(keyset_ids(keysets@), (mint_url@, id@));
    }
    None
}

/// The place of the record of a mint.
fn mint_position(mints: &Vec<(String, MintInfo)>, mint_url: &String) -> (r: Option<usize>)
    ensures
        match r {
            Some(i) => find(mint_urls(mints@), mint_url@) == Some(i as int) && i < mints@.len(),
            None => find(mint_urls(mints@), mint_url@).is_none(),
        },
{
    let mut i: usize = 0;
    while i < mints.len()
        invariant
            i <= mints.len(),
            forall|j: int| 0 <= j < i ==> mint_urls(mints@)[j] != mint_url@,
        decreases mints.len() - i,
    {
        if mints[i].0 == *mint_url {
            proof {
                assert(is_first(mint_urls(mints@), mint_url@, i as int));
                lemma_find(mint_urls(mints@), mint_url@, i as int);
            }
            return Some(i);
        }
        i = i + 1;
    }
    proof {
        lemma_find_none(mint_urls(mints@), mint_url@);
    }
    None
}

/// The place of the pre-mint secrets of a quote.
fn premint_position(premints: &Vec<(String, PreMintSecrets)>, id: &str) -> (r: Option<usize>)
    ensures
        match r {
            Some(i) => find(premint_ids(premints@), id@) == Some(i as int) && i < premints@.len(),
            None => find(premint_ids(premints@), id@).is_none(),
        },
{
    let key: String = id.to_owned();
    let mut i: usize = 0;
    while i < premints.len()
        invariant
            i <= premints.len(),
            key@ == id@,
            forall|j: int| 0 <= j < i ==> premint_ids(premints@)[j] != id@,
        decreases premints.len() - i,
    {
        if premints[i].0 == key {
            proof {
                assert(is_first(premint_ids(premints@), id@, i as int));
                lemma_find(premint_ids(premints@), id@, i as int);
            }
            return Some(i);
        }
        i = i + 1;
    }
    proof {
        lemma_find_none(premint_ids(premints@), id@);
    }
    None
}

impl PreMintSecrets {
    /// A copy of the pre-mint secrets.
    pub fn copy(&self) -> (r: PreMintSecrets)
        ensures
            r.keyset_id == self.keyset_id,
            r.secrets@ == self.secrets@,
    {
        let mut secrets: Vec<PreMint> = Vec::new();
        let mut i: usize = 0;
        while i < self.secrets.len()
            invariant
                i <= self.secrets.len(),
                secrets@ == self.secrets@.take(i as int),
            decreases self.secrets.len() - i,
        {
            proof {
                assert(self.secrets@.take(i + 1) =~= self.secrets@.take(i as int).push(
                    self.secrets@[i as int],
                ));
            }
            secrets.push(self.secrets[i].clone());
            i = i + 1;
        }
        proof {
            assert(self.secrets@.take(i as int) =~= self.secrets@);
        }
        PreMintSecrets { secrets, keyset_id: self.keyset_id }
    }
}

impl WalletStore {
    /// An empty store.
    pub fn new() -> (s: WalletStore)
        ensures
            s.mints@.len() == 0,
            s.keysets@.len() == 0,
            s.keys@.len() == 0,
            s.mint_quotes@.len() == 0,
            s.premint_secrets@.len() == 0,
            s.keyset_counters@.len() == 0,
            s.proofs@.len() == 0,
            s.transactions@.len() == 0,
    {
        WalletStore {
            mints: Vec::new(),
            keysets: Vec::new(),
            keys: Vec::new(),
            mint_quotes: Vec::new(),
            premint_secrets: Vec::new(),
            keyset_counters: Vec::new(),
            proofs: Vec::new(),
            transactions: Vec::new(),
        }
    }

    /// The quote with an identifier.
    pub fn get_mint_quote(&self, id: &str) -> (r: Option<&MintQuote>)
        ensures
            match r {
                Some(q) => quote_of(self.mint_quotes@, id@) == Some(*q),
                None => quote_of(self.mint_quotes@, id@).is_none(),
            },
    {
        match quote_position(&self.mint_quotes, id) {
            Some(i) => Some(&self.mint_quotes[i]),
            None => None,
        }
    }

    /// Puts a quote in: in place of the one with its identifier, or at the
    /// end.
    pub fn add_mint_quote(&mut self, quote: MintQuote)
        ensures
            final(self).mint_quotes@ == with_quote(old(self).mint_quotes@, quote),
            *final(self) == (WalletStore { mint_quotes: final(self).mint_quotes, ..*old(self) }),
    {
        match quote_position(&self.mint_quotes, quote.id.as_str()) {
            Some(i) => {
                self.mint_quotes[i] = quote;
            },
            None => {
                self.mint_quotes.push(quote);
            },
        }
    }

    /// Takes out the quote with an identifier, if there is one.
    pub fn remove_mint_quote(&mut self, id: &str)
        ensures
            final(self).mint_quotes@ == without_quote(old(self).mint_quotes@, id@),
            *final(self) == (WalletStore { mint_quotes: final(self).mint_quotes, ..*old(self) }),
    {
        match quote_position(&self.mint_quotes, id) {
            Some(i) => {
                self.mint_quotes.remove(i);
            },
            None => {},
        }
    }

    /// The counter of a keyset, if the store has a record of it.
    pub fn get_keyset_counter(&self, id: &Id) -> (r: Option<u32>)
        ensures
            match r {
                Some(c) => find(counter_ids(self.keyset_counters@), id@).is_some() && c == counter_of(
                    self.keyset_counters@,
                    id@,
                ),
                None => find(counter_ids(self.keyset_counters@), id@).is_none(),
            },
    {
        match counter_position(&self.keyset_counters, id) {
            Some(i) => Some(self.keyset_counters[i].1),
            None => None,
        }
    }

    /// Raises the counter of a keyset by `count` and returns the counter
    /// after that: the caller has the counters from the result less `count`
    /// up to the result for its own. Where the counter would not fit in 32
    /// bits nothing changes.
    pub fn increment_keyset_counter(&mut self, id: &Id, count: u32) -> (r: Result<u32, Error>)
        ensures
            is_incremented(*old(self), *final(self), *id, count, r),
    {
        match counter_position(&self.keyset_counters, id) {
            Some(i) => {
                match self.keyset_counters[i].1.checked_add(count) {
                    Some(after) => {
                        self.keyset_counters[i] = (*id, after);
                        Ok(after)
                    },
                    None => Err(Error::CounterOverflow),
                }
            },
            None => {
                self.keyset_counters.push((*id, count));
                Ok(count)
            },
        }
    }

    /// Adds proofs at the end.
    pub fn add_proofs(&mut self, added: Vec<ProofInfo>)
        ensures
            final(self).proofs@ == old(self).proofs@ + added@,
            *final(self) == (WalletStore { proofs: final(self).proofs, ..*old(self) }),
    {
        let mut added = added;
        self.proofs.append(&mut added);
    }

    /// Takes out the proofs with the points `removed_ys`, then adds proofs at
    /// the end.
    pub fn update_proofs(&mut self, added: Vec<ProofInfo>, removed_ys: &Vec<PublicKey>)
        ensures
            final(self).proofs@ == without_proofs(old(self).proofs@, removed_ys@) + added@,
            *final(self) == (WalletStore { proofs: final(self).proofs, ..*old(self) }),
    {
        let mut kept: Vec<ProofInfo> = Vec::new();
        let mut i: usize = 0;
        while i < self.proofs.len()
            invariant
                i <= self.proofs.len(),
                *self == *old(self),
                kept@ == without_proofs(self.proofs@.take(i as int), removed_ys@),
            decreases self.proofs.len() - i,
        {
            proof {
                assert(self.proofs@.take(i + 1).drop_last() =~= self.proofs@.take(i as int));
            }
            let mut listed: bool = false;
            let mut j: usize = 0;
            while j < removed_ys.len()
                invariant
                    j <= removed_ys.len(),
                    i < self.proofs.len(),
                    listed ==> is_listed(removed_ys@, self.proofs@[i as int].y),
                    !listed ==> forall|k: int|
                        0 <= k < j ==> (#[trigger] removed_ys@[k])@ != self.proofs@[i as int].y@,
                decreases removed_ys.len() - j,
            {
                if removed_ys[j] == self.proofs[i].y {
                    listed = true;
                }
                j = j + 1;
            }
            if !listed {
                kept.push(self.proofs[i].clone());
            }
            i = i + 1;
        }
        proof {
            assert(self.proofs@.take(i as int) =~= self.proofs@);
        }
        let mut added = added;
        kept.append(&mut added);
        self.proofs = kept;
    }

    /// Adds a transaction at the end.
    pub fn add_transaction(&mut self, transaction: Transaction)
        ensures
            final(self).transactions@ == old(self).transactions@.push(transaction),
            *final(self) == (WalletStore { transactions: final(self).transactions, ..*old(self) }),
    {
        self.transactions.push(transaction);
    }

    /// The public keys of a keyset.
    pub fn get_keys(&self, id: &Id) -> (r: Option<&Keys>)
        ensures
            match r {
                Some(k) => keys_of(self.keys@, id@) == Some(*k),
                None => keys_of(self.keys@, id@).is_none(),
            },
    {
        match keys_position(&self.keys, id) {
            Some(i) => Some(&self.keys[i].1),
            None => None,
        }
    }

    /// Puts the public keys of a keyset in, unless the store has keys for it.
    pub fn add_keys(&mut self, id: Id, keys: Keys)
        ensures
            final(self).keys@ == if find(keys_ids(old(self).keys@), id@).is_some() {
                old(self).keys@
            } else {
                old(self).keys@.push((id, keys))
            },
            *final(self) == (WalletStore { keys: final(self).keys, ..*old(self) }),
    {
        match keys_position(&self.keys, &id) {
            Some(_) => {},
            None => {
                self.keys.push((id, keys));
            },
        }
    }

    /// Puts a keyset of a mint in: in place of the record with its mint and
    /// identifier, or at the end.
    pub fn add_mint_keyset(&mut self, mint_url: String, info: KeySetInfo)
        ensures
            final(self).keysets@ == with_keyset(old(self).keysets@, mint_url, info),
            *final(self) == (WalletStore { keysets: final(self).keysets, ..*old(self) }),
    {
        match keyset_position(&self.keysets, &mint_url, &info.id) {
            Some(i) => {
                self.keysets[i] = (mint_url, info);
            },
            None => {
                self.keysets.push((mint_url, info));
            },
        }
    }

    /// The record of a keyset of a mint.
    pub fn get_keyset(&self, mint_url: &String, id: &Id) -> (r: Option<&KeySetInfo>)
        ensures
            match r {
                Some(info) => find(keyset_ids(self.keysets@), (mint_url@, id@)) matches Some(i)
                    && self.keysets@[i].1 == *info,
                None => find(keyset_ids(self.keysets@), (mint_url@, id@)).is_none(),
            },
    {
        match keyset_position(&self.keysets, mint_url, id) {
            Some(i) => Some(&self.keysets[i].1),
            None => None,
        }
    }

    /// The keysets of a mint, in the order of the store; `None` where the
    /// store has none.
    pub fn get_mint_keysets(&self, mint_url: &String) -> (r: Option<Vec<KeySetInfo>>)
        ensures
            match r {
                Some(found) => found@ == keysets_of(self.keysets@, mint_url@) && found@.len() > 0,
                None => keysets_of(self.keysets@, mint_url@).len() == 0,
            },
    {
        let mut found: Vec<KeySetInfo> = Vec::new();
        let mut i: usize = 0;
        while i < self.keysets.len()
            invariant
                i <= self.keysets.len(),
                found@ == keysets_of(self.keysets@.take(i as int), mint_url@),
            decreases self.keysets.len() - i,
        {
            proof {
                assert(self.keysets@.take(i + 1).drop_last() =~= self.keysets@.take(i as int));
            }
            if self.keysets[i].0 == *mint_url {
                found.push(self.keysets[i].1.clone());
            }
            i = i + 1;
        }
        proof {
            assert(self.keysets@.take(i as int) =~= self.keysets@);
        }
        if found.len() == 0 {
            None
        } else {
            Some(found)
        }
    }

    /// What the store knows of a mint.
    pub fn get_mint(&self, mint_url: &String) -> (r: Option<&MintInfo>)
        ensures
            match r {
                Some(info) => mint_of(self.mints@, mint_url@) == Some(*info),
                None => mint_of(self.mints@, mint_url@).is_none(),
            },
    {
        match mint_position(&self.mints, mint_url) {
            Some(i) => Some(&self.mints[i].1),
            None => None,
        }
    }

    /// Puts the record of a mint in: in place of the one with its address, or
    /// at the end.
    pub fn add_mint(&mut self, mint_url: String, info: MintInfo)
        ensures
            final(self).mints@ == match find(mint_urls(old(self).mints@), mint_url@) {
                Some(i) => old(self).mints@.update(i, (mint_url, info)),
                None => old(self).mints@.push((mint_url, info)),
            },
            *final(self) == (WalletStore { mints: final(self).mints, ..*old(self) }),
    {
        match mint_position(&self.mints, &mint_url) {
            Some(i) => {
                self.mints[i] = (mint_url, info);
            },
            None => {
                self.mints.push((mint_url, info));
            },
        }
    }

    /// Puts the pre-mint secrets of a quote in: in place of those of the
    /// quote, or at the end.
    pub fn add_premint_secrets(&mut self, quote_id: String, secrets: PreMintSecrets)
        ensures
            final(self).premint_secrets@ == match find(
                premint_ids(old(self).premint_secrets@),
                quote_id@,
            ) {
                Some(i) => old(self).premint_secrets@.update(i, (quote_id, secrets)),
                None => old(self).premint_secrets@.push((quote_id, secrets)),
            },
            *final(self) == (WalletStore {
                premint_secrets: final(self).premint_secrets,
                ..*old(self)
            }),
    {
        match premint_position(&self.premint_secrets, quote_id.as_str()) {
            Some(i) => {
                self.premint_secrets[i] = (quote_id, secrets);
            },
            None => {
                self.premint_secrets.push((quote_id, secrets));
            },
        }
    }

    /// The pre-mint secrets of a quote.
    pub fn get_premint_secrets(&self, quote_id: &str) -> (r: Option<&PreMintSecrets>)
        ensures
            match r {
                Some(p) => premint_of(self.premint_secrets@, quote_id@) == Some(*p),
                None => premint_of(self.premint_secrets@, quote_id@).is_none(),
            },
    {
        match premint_position(&self.premint_secrets, quote_id) {
            Some(i) => Some(&self.premint_secrets[i].1),
            None => None,
        }
    }

    /// Takes out the pre-mint secrets of a quote, if there are any.
    pub fn remove_premint_secrets(&mut self, quote_id: &str)
        ensures
            final(self).premint_secrets@ == match find(
                premint_ids(old(self).premint_secrets@),
                quote_id@,
            ) {
                Some(i) => old(self).premint_secrets@.remove(i),
                None => old(self).premint_secrets@,
            },
            *final(self) == (WalletStore {
                premint_secrets: final(self).premint_secrets,
                ..*old(self)
            }),
    {
        match premint_position(&self.premint_secrets, quote_id) {
            Some(i) => {
                self.premint_secrets.remove(i);
            },
            None => {},
        }
    }
}

} // verus!
