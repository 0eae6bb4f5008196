//! The mint: keysets, quotes and the issuing of blind signatures.

use crate::mint::keysets::MintKeySet;
use crate::mint::quote::MintQuote;
use vstd::prelude::*;

pub mod batch;
pub mod issue;
pub mod keysets;
pub mod ledger;
pub mod quote;

verus! {

/// A mint: its keysets and its quotes.
#[derive(Debug, PartialEq, Eq)]
pub struct Mint {
    /// The keysets.
    pub keysets: Vec<MintKeySet>,
    /// The quotes.
    pub quotes: Vec<MintQuote>,
    /// The most outputs that the mint signs in one request.
    pub max_outputs: usize,
    /// The time that a quote for a Lightning payment is valid, in seconds.
    pub mint_ttl: u64,
}

impl Mint {
    /// A mint without keysets or quotes.
    pub fn new(max_outputs: usize, mint_ttl: u64) -> (mint: Mint)
        ensures
            mint.keysets@.len() == 0,
            mint.quotes@.len() == 0,
            mint.max_outputs == max_outputs,
            mint.mint_ttl == mint_ttl,
    {
        Mint { keysets: Vec::new(), quotes: Vec::new(), max_outputs, mint_ttl }
    }

    /// Every quote of the mint has its amounts in order.
    pub open spec fn wf(&self) -> bool {
        forall|i: int| 0 <= i < self.quotes@.len() ==> (#[trigger] self.quotes@[i]).wf()
    }
}

} // verus!
