//! The wallet: quotes, keysets and the minting of proofs.

use crate::nuts::nut00::CurrencyUnit;
use crate::wallet::store::WalletStore;
use vstd::prelude::*;

pub mod issue;
pub mod keysets;
pub mod mint;
pub mod store;
pub mod types;

verus! {

/// A wallet for one unit at one mint.
///
/// The wallet decides and records; it does not talk to the mint. Each of its
/// operations that needs the mint comes in steps: one makes the request, the
/// next takes the mint's answer.
#[derive(Debug, PartialEq, Eq)]
pub struct Wallet {
    /// The address of the mint.
    pub mint_url: String,
    /// The unit that the wallet counts in.
    pub unit: CurrencyUnit,
    /// The seed from which secrets and blinding factors are derived.
    pub seed: Vec<u8>,
    /// What the wallet keeps.
    pub localstore: WalletStore,
}

impl Wallet {
    /// A wallet with an empty store.
    pub fn new(mint_url: String, unit: CurrencyUnit, seed: Vec<u8>) -> (w: Wallet)
        ensures
            w.mint_url == mint_url,
            w.unit == unit,
            w.seed == seed,
            w.localstore.mint_quotes@.len() == 0,
            w.localstore.keysets@.len() == 0,
            w.localstore.keys@.len() == 0,
            w.localstore.keyset_counters@.len() == 0,
            w.localstore.proofs@.len() == 0,
            w.localstore.transactions@.len() == 0,
            w.localstore.premint_secrets@.len() == 0,
            w.localstore.mints@.len() == 0,
    {
        Wallet { mint_url, unit, seed, localstore: WalletStore::new() }
    }
}

} // verus!
