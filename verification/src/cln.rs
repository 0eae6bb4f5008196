//! What can go wrong with a Core Lightning node behind the mint.

use vstd::prelude::*;

verus! {

/// An error of the Core Lightning backend.
#[derive(Debug, PartialEq, Eq)]
pub enum Error {
    /// The invoice has no amount.
    UnknownInvoiceAmount,
    /// The node answered what was not asked.
    WrongClnResponse,
    /// The node does not know the invoice.
    UnknownInvoice,
    /// The connection to the node failed; the text says how.
    Cln(String),
    /// The node refused a call; the text is its answer.
    ClnRpc(String),
}

impl Error {
    /// The message of the error: for a failure of the connection or a refusal
    /// of the node, the text that it carries.
    pub fn to_string(&self) -> (s: String)
        ensures
            s@ == match *self {
                Error::UnknownInvoiceAmount => "Unknown invoice amount"@,
                Error::WrongClnResponse => "Wrong CLN response"@,
                Error::UnknownInvoice => "Unknown invoice"@,
                Error::Cln(text) => text@,
                Error::ClnRpc(text) => text@,
            },
    {
        match self {
            Error::UnknownInvoiceAmount => "Unknown invoice amount".to_owned(),
            Error::WrongClnResponse => "Wrong CLN response".to_owned(),
            Error::UnknownInvoice => "Unknown invoice".to_owned(),
            Error::Cln(text) => text.clone(),
            Error::ClnRpc(text) => text.clone(),
        }
    }
}

/// An error of a Lightning backend, whichever it is.
#[derive(Debug, PartialEq, Eq)]
pub enum LightningError {
    /// The backend failed.
    Lightning(Error),
}

impl From<Error> for LightningError {
    fn from(e: Error) -> (r: LightningError) {
        LightningError::Lightning(e)
    }
}

impl vstd::std_specs::convert::FromSpecImpl<Error> for LightningError {
    open spec fn obeys_from_spec() -> bool {
        true
    }

    open spec fn from_spec(e: Error) -> LightningError {
        LightningError::Lightning(e)
    }
}

} // verus!
