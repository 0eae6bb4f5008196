//! The keysets of the wallet's mint and their keys.

use crate::amount::FeeAndAmounts;
use crate::error::Error;
use crate::nuts::nut00::CurrencyUnit;
use crate::nuts::nut01::{amounts_of, Keys};
use crate::nuts::nut02::{be_value, keyset_id_of, Id, KeySet, KeySetInfo};
use crate::wallet::store::{keys_ids, keys_of, keyset_ids, keysets_of, with_keyset, WalletStore};
use crate::table::find;
use crate::wallet::Wallet;
use vstd::prelude::*;

verus! {

/// A keyset can mint for a unit: it is active and counts in the unit.
pub open spec fn eligible(keyset: KeySetInfo, unit: CurrencyUnit) -> bool {
    keyset.active && keyset.unit@ == unit@
}

/// Keyset `a` is to be preferred to `b`, or is as good: its fee is lower, or
/// the fees are the same and its identifier is not the larger.
pub open spec fn preferred(a: KeySetInfo, b: KeySetInfo) -> bool {
    a.input_fee_ppk < b.input_fee_ppk || (a.input_fee_ppk == b.input_fee_ppk && be_value(a.id@)
        <= be_value(b.id@))
}

/// `pick` is the keyset of the list that mints for the unit at the lowest fee;
/// among those with the lowest fee, the one with the smallest identifier.
pub open spec fn is_pick(pick: KeySetInfo, keysets: Seq<KeySetInfo>, unit: CurrencyUnit) -> bool {
    &&& exists|i: int| 0 <= i < keysets.len() && keysets[i] == pick
    &&& eligible(pick, unit)
    &&& forall|j: int| 0 <= j < keysets.len() && eligible(#[trigger] keysets[j], unit) ==> preferred(
        pick,
        keysets[j],
    )
}

/// No keyset of the list mints for the unit.
pub open spec fn none_eligible(keysets: Seq<KeySetInfo>, unit: CurrencyUnit) -> bool {
    forall|j: int| 0 <= j < keysets.len() ==> !eligible(#[trigger] keysets[j], unit)
}

/// The keysets of a list that mint for a unit, in the order of the list.
pub open spec fn eligible_of(keysets: Seq<KeySetInfo>, unit: CurrencyUnit) -> Seq<KeySetInfo>
    decreases keysets.len(),
{
    if keysets.len() == 0 {
        Seq::empty()
    } else if eligible(keysets.last(), unit) {
        eligible_of(keysets.drop_last(), unit).push(keysets.last())
    } else {
        eligible_of(keysets.drop_last(), unit)
    }
}

/// A list of stored keysets with each keyset of another list put in, in the
/// order of that list.
pub open spec fn with_keysets(stored: Seq<(String, KeySetInfo)>, mint_url: String, added: Seq<KeySetInfo>) -> Seq<
    (String, KeySetInfo),
>
    decreases added.len(),
{
    if added.len() == 0 {
        stored
    } else {
        with_keyset(with_keysets(stored, mint_url, added.drop_last()), mint_url, added.last())
    }
}

/// The identifiers of the keysets of a list for which a list of keys has no
/// keys, in the order of the list.
pub open spec fn missing_keys(keysets: Seq<KeySetInfo>, keys: Seq<(Id, Keys)>) -> Seq<Id>
    decreases keysets.len(),
{
    if keysets.len() == 0 {
        Seq::empty()
    } else if find(keys_ids(keys), keysets.last().id@).is_none() {
        missing_keys(keysets.drop_last(), keys).push(keysets.last().id)
    } else {
        missing_keys(keysets.drop_last(), keys)
    }
}

/// The keyset of a list that mints for a unit at the lowest fee.
pub fn lowest_fee_keyset(keysets: &Vec<KeySetInfo>, unit: &CurrencyUnit) -> (r: Result<KeySetInfo, Error>)
    ensures
        match r {
            Ok(pick) => is_pick(pick, keysets@, *unit),
            Err(e) => e == Error::NoActiveKeyset && none_eligible(keysets@, *unit),
        },
{
    let mut best: Option<usize> = None;
    let mut best_id: u64 = 0;
    let mut i: usize = 0;
    while i < keysets.len()
        invariant
            i <= keysets.len(),
            match best {
                Some(b) => {
                    &&& b < i
                    &&& eligible(keysets@[b as int], *unit)
                    &&& best_id as nat == be_value(keysets@[b as int].id@)
                    &&& forall|j: int|
                        0 <= j < i && eligible(#[trigger] keysets@[j], *unit) ==> preferred(
                            keysets@[b as int],
                            keysets@[j],
                        )
                },
                None => forall|j: int| 0 <= j < i ==> !eligible(#[trigger] keysets@[j], *unit),
            },
        decreases keysets.len() - i,
    {
        if keysets[i].active && keysets[i].unit == *unit {
            let id: u64 = keysets[i].id.to_u64();
            let better: bool = match best {
                Some(b) => keysets[i].input_fee_ppk < keysets[b].input_fee_ppk || (
                keysets[i].input_fee_ppk == keysets[b].input_fee_ppk && id < best_id),
                None => true,
            };
            if better {
                best = Some(i);
                best_id = id;
            }
        }
        i = i + 1;
    }
    match best {
        Some(b) => Ok(keysets[b].clone()),
        None => Err(Error::NoActiveKeyset),
    }
}

impl Wallet {
    /// The public keys of a keyset that the wallet has.
    pub fn load_keyset_keys(&self, keyset_id: Id) -> (r: Result<Keys, Error>)
        ensures
            match r {
                Ok(keys) => keys_of(self.localstore.keys@, keyset_id@) matches Some(k) && keys@ == k@,
                Err(e) => e == Error::UnknownKeyset && keys_of(self.localstore.keys@, keyset_id@).is_none(),
            },
    {
        match self.localstore.get_keys(&keyset_id) {
            Some(keys) => Ok(keys.copy()),
            None => Err(Error::UnknownKeyset),
        }
    }

    /// The public keys of a keyset: those that the wallet has, or else those
    /// that the mint sent, `fetched`, once their identifier is found to be the
    /// one that they give; they are then kept.
    ///
    /// Without keys of its own and without `fetched` the keyset is unknown,
    /// and the mint is to be asked.
    pub fn get_keyset_keys(&mut self, keyset_id: Id, fetched: Option<KeySet>) -> (r: Result<Keys, Error>)
        ensures
            match keys_of(old(self).localstore.keys@, keyset_id@) {
                Some(k) => r matches Ok(keys) && keys@ == k@ && *final(self) == *old(self),
                None => match fetched {
                    None => r == Err::<Keys, Error>(Error::UnknownKeyset) && *final(self) == *old(self),
                    Some(keyset) => if keyset.id@ == keyset_id_of(keyset.keys@) {
                        &&& r matches Ok(keys)
                        &&& keys@ == keyset.keys@
                        &&& final(self).localstore.keys@ == if find(
                            keys_ids(old(self).localstore.keys@),
                            keyset.id@,
                        ).is_some() {
                            old(self).localstore.keys@
                        } else {
                            old(self).localstore.keys@.push((keyset.id, keyset.keys))
                        }
                        &&& final(self).localstore == (WalletStore {
                            keys: final(self).localstore.keys,
                            ..old(self).localstore
                        })
                    } else {
                        r == Err::<Keys, Error>(
                            Error::Keyset(crate::nuts::nut02::Error::IncorrectKeysetId),
                        ) && *final(self) == *old(self)
                    },
                },
            },
            final(self).mint_url == old(self).mint_url,
            final(self).unit == old(self).unit,
            final(self).seed == old(self).seed,
    {
        match self.localstore.get_keys(&keyset_id) {
            Some(keys) => {
                return Ok(keys.copy());
            },
            None => {},
        }
        let keyset: KeySet = match fetched {
            Some(keyset) => keyset,
            None => {
                return Err(Error::UnknownKeyset);
            },
        };
        match keyset.verify_id() {
            Ok(()) => {},
            Err(e) => {
                return Err(Error::Keyset(e));
            },
        }
        let keys: Keys = keyset.keys.copy();
        self.localstore.add_keys(keyset.id, keyset.keys);
        Ok(keys)
    }

    /// Takes a keyset of the wallet's unit into the store: its keys under the
    /// identifier that they give, and its record with the mint.
    pub fn add_keyset(&mut self, keys: Keys, active: bool, input_fee_ppk: u64) -> (r: Result<(), Error>)
        ensures
            r.is_ok(),
            final(self).mint_url == old(self).mint_url,
            final(self).unit == old(self).unit,
            final(self).seed == old(self).seed,
            exists|id: Id|
                {
                    &&& id@ == keyset_id_of(keys@)
                    &&& final(self).localstore.keysets@ == with_keyset(
                        old(self).localstore.keysets@,
                        old(self).mint_url,
                        KeySetInfo { id, unit: old(self).unit, active, input_fee_ppk },
                    )
                    &&& final(self).localstore.keys@ == if find(
                        keys_ids(old(self).localstore.keys@),
                        id@,
                    ).is_some() {
                        old(self).localstore.keys@
                    } else {
                        old(self).localstore.keys@.push((id, keys))
                    }
                },
            final(self).localstore == (WalletStore {
                keys: final(self).localstore.keys,
                keysets: final(self).localstore.keysets,
                ..old(self).localstore
            }),
    {
        let id: Id = Id::from_keys(&keys);
        self.localstore.add_keys(id, keys);
        let info = KeySetInfo { id, unit: self.unit.clone(), active, input_fee_ppk };
        self.localstore.add_mint_keyset(self.mint_url.clone(), info);
        Ok(())
    }

    /// Keeps the keysets that the mint sent.
    fn store_mint_keysets(&mut self, keysets: &Vec<KeySetInfo>)
        ensures
            final(self).localstore.keysets@ == with_keysets(
                old(self).localstore.keysets@,
                old(self).mint_url,
                keysets@,
            ),
            final(self).localstore == (WalletStore {
                keysets: final(self).localstore.keysets,
                ..old(self).localstore
            }),
            final(self).mint_url == old(self).mint_url,
            final(self).unit == old(self).unit,
            final(self).seed == old(self).seed,
    {
        let mut i: usize = 0;
        while i < keysets.len()
            invariant
                i <= keysets.len(),
                self.localstore.keysets@ == with_keysets(
                    old(self).localstore.keysets@,
                    old(self).mint_url,
                    keysets@.take(i as int),
                ),
                self.localstore == (WalletStore {
                    keysets: self.localstore.keysets,
                    ..old(self).localstore
                }),
                self.mint_url == old(self).mint_url,
                self.unit == old(self).unit,
                self.seed == old(self).seed,
            decreases keysets.len() - i,
        {
            proof {
                assert(keysets@.take(i + 1).drop_last() =~= keysets@.take(i as int));
            }
            self.localstore.add_mint_keyset(self.mint_url.clone(), keysets[i].clone());
            i = i + 1;
        }
        proof {
            assert(keysets@.take(i as int) =~= keysets@);
        }
    }

    /// The identifiers of the keysets of a list whose keys the wallet lacks.
    fn keys_to_fetch(&self, keysets: &Vec<KeySetInfo>) -> (ids: Vec<Id>)
        ensures
            ids@ == missing_keys(keysets@, self.localstore.keys@),
    {
        let mut ids: Vec<Id> = Vec::new();
        let mut i: usize = 0;
        while i < keysets.len()
            invariant
                i <= keysets.len(),
                ids@ == missing_keys(keysets@.take(i as int), self.localstore.keys@),
            decreases keysets.len() - i,
        {
            proof {
                assert(keysets@.take(i + 1).drop_last() =~= keysets@.take(i as int));
            }
            if self.localstore.get_keys(&keysets[i].id).is_none() {
                ids.push(keysets[i].id);
            }
            i = i + 1;
        }
        proof {
            assert(keysets@.take(i as int) =~= keysets@);
        }
        ids
    }

    /// Takes the keysets that the mint sent, `keysets`, into the store and
    /// returns them.
    pub fn get_mint_keysets(&mut self, keysets: Vec<KeySetInfo>) -> (r: Result<Vec<KeySetInfo>, Error>)
        ensures
            r matches Ok(same) && same == keysets,
            final(self).localstore.keysets@ == with_keysets(
                old(self).localstore.keysets@,
                old(self).mint_url,
                keysets@,
            ),
            final(self).localstore == (WalletStore {
                keysets: final(self).localstore.keysets,
                ..old(self).localstore
            }),
            final(self).mint_url == old(self).mint_url,
            final(self).unit == old(self).unit,
            final(self).seed == old(self).seed,
    {
        self.store_mint_keysets(&keysets);
        Ok(keysets)
    }

    /// Takes the keysets that the mint sent, `keysets`, into the store.
    /// Returns those of them that mint for the wallet's unit, and the
    /// identifiers of those whose keys the wallet lacks: for each of these the
    /// mint is to be asked, and the answer handed to
    /// [`Wallet::get_keyset_keys`].
    pub fn get_active_mint_keysets(&mut self, keysets: Vec<KeySetInfo>) -> (r: Result<
        (Vec<KeySetInfo>, Vec<Id>),
        Error,
    >)
        ensures
            r matches Ok((active, to_fetch)) && active@ == eligible_of(keysets@, old(self).unit)
                && to_fetch@ == missing_keys(keysets@, old(self).localstore.keys@),
            final(self).localstore.keysets@ == with_keysets(
                old(self).localstore.keysets@,
                old(self).mint_url,
                keysets@,
            ),
            final(self).localstore == (WalletStore {
                keysets: final(self).localstore.keysets,
                ..old(self).localstore
            }),
            final(self).mint_url == old(self).mint_url,
            final(self).unit == old(self).unit,
            final(self).seed == old(self).seed,
    {
        self.store_mint_keysets(&keysets);
        let mut active: Vec<KeySetInfo> = Vec::new();
        let mut i: usize = 0;
        while i < keysets.len()
            invariant
                i <= keysets.len(),
                active@ == eligible_of(keysets@.take(i as int), self.unit),
            decreases keysets.len() - i,
        {
            proof {
                assert(keysets@.take(i + 1).drop_last() =~= keysets@.take(i as int));
            }
            if keysets[i].active && keysets[i].unit == self.unit {
                active.push(keysets[i].clone());
            }
            i = i + 1;
        }
        proof {
            assert(keysets@.take(i as int) =~= keysets@);
        }
        let to_fetch: Vec<Id> = self.keys_to_fetch(&keysets);
        Ok((active, to_fetch))
    }

    /// The keyset that the wallet mints with, from what it has stored and
    /// without asking the mint: of the mint's keysets that are active and
    /// count in the wallet's unit, the one with the lowest fee; among those
    /// with the lowest fee, the one with the smallest identifier.
    pub fn get_active_mint_keyset_local(&self) -> (r: Result<KeySetInfo, Error>)
        ensures
            match r {
                Ok(pick) => is_pick(pick, keysets_of(self.localstore.keysets@, self.mint_url@), self.unit),
                Err(e) => e == Error::NoActiveKeyset && none_eligible(
                    keysets_of(self.localstore.keysets@, self.mint_url@),
                    self.unit,
                ),
            },
    {
        match self.localstore.get_mint_keysets(&self.mint_url) {
            Some(keysets) => lowest_fee_keyset(&keysets, &self.unit),
            None => Err(Error::NoActiveKeyset),
        }
    }

    /// Takes the keysets that the mint sent, `keysets`, into the store and
    /// picks among them the keyset that the wallet mints with, as
    /// [`Wallet::get_active_mint_keyset_local`] does among the stored ones.
    /// With it come the identifiers of the keysets whose keys the wallet
    /// lacks.
    pub fn get_active_mint_keyset(&mut self, keysets: Vec<KeySetInfo>) -> (r: Result<
        (KeySetInfo, Vec<Id>),
        Error,
    >)
        ensures
            match r {
                Ok((pick, to_fetch)) => is_pick(pick, keysets@, old(self).unit) && to_fetch@
                    == missing_keys(keysets@, old(self).localstore.keys@),
                Err(e) => e == Error::NoActiveKeyset && none_eligible(keysets@, old(self).unit),
            },
            final(self).localstore.keysets@ == with_keysets(
                old(self).localstore.keysets@,
                old(self).mint_url,
                keysets@,
            ),
            final(self).localstore == (WalletStore {
                keysets: final(self).localstore.keysets,
                ..old(self).localstore
            }),
            final(self).mint_url == old(self).mint_url,
            final(self).unit == old(self).unit,
            final(self).seed == old(self).seed,
    {
        self.store_mint_keysets(&keysets);
        let to_fetch: Vec<Id> = self.keys_to_fetch(&keysets);
        match lowest_fee_keyset(&keysets, &self.unit) {
            Ok(pick) => Ok((pick, to_fetch)),
            Err(e) => Err(e),
        }
    }

    /// The fee of a keyset of the wallet's mint and the amounts that it has
    /// keys for. The keyset is unknown where the wallet has no record of it
    /// with the mint, or lacks its keys.
    pub fn get_keyset_fees_and_amounts_by_id(&self, keyset_id: Id) -> (r: Result<FeeAndAmounts, Error>)
        ensures
            match r {
                Ok(f) => {
                    &&& find(keyset_ids(self.localstore.keysets@), (self.mint_url@, keyset_id@)) matches Some(
                        i,
                    )
                    &&& f.fee == self.localstore.keysets@[i].1.input_fee_ppk
                    &&& keys_of(self.localstore.keys@, keyset_id@) matches Some(keys)
                    &&& f.amounts@ == amounts_of(keys@)
                },
                Err(e) => e == Error::UnknownKeyset && (find(
                    keyset_ids(self.localstore.keysets@),
                    (self.mint_url@, keyset_id@),
                ).is_none() || keys_of(self.localstore.keys@, keyset_id@).is_none()),
            },
    {
        let fee: u64 = match self.localstore.get_keyset(&self.mint_url, &keyset_id) {
            Some(info) => info.input_fee_ppk,
            None => {
                return Err(Error::UnknownKeyset);
            },
        };
        match self.localstore.get_keys(&keyset_id) {
            Some(keys) => Ok(FeeAndAmounts { fee, amounts: keys.amounts() }),
            None => Err(Error::UnknownKeyset),
        }
    }
}

} // verus!
