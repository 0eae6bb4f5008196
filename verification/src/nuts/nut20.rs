//! Signatures that bind a mint request to the key a quote is locked to.

use crate::nuts::nut00::BlindedMessage;
use crate::nuts::nut01::{signed_digest, PublicKey, SecretKey};
use crate::nuts::nut04::MintRequest;
use crate::secp::{public_point, schnorr_valid};
use crate::util::{ascii_string, extend_bytes, hex_decode, hex_encode, hex_of, is_hex, lemma_ascii_utf8, lemma_unhex_hex, unhex};
use vstd::prelude::*;
use vstd::utf8::encode_utf8;

verus! {

/// Why a request is not signed as its quote asks.
#[derive(Clone, Copy, Debug, PartialEq, Eq, Structural)]
pub enum Error {
    /// The request carries no signature.
    SignatureMissing,
    /// The signature is no signature of the request under the key.
    InvalidSignature,
    /// The bytes of the signing key are no secret key.
    InvalidSecretKey,
}

/// The blinded secrets of the outputs as hexadecimal text, one after the
/// other.
pub open spec fn outputs_text(outputs: Seq<BlindedMessage>) -> Seq<u8>
    decreases outputs.len(),
{
    if outputs.len() == 0 {
        Seq::empty()
    } else {
        outputs_text(outputs.drop_last()) + hex_of(outputs.last().blinded_secret@)
    }
}

/// What is signed for a request: the identifier of the quote as UTF-8, then
/// the blinded secrets of the outputs as hexadecimal text.
pub open spec fn message_to_sign(quote: Seq<char>, outputs: Seq<BlindedMessage>) -> Seq<u8> {
    encode_utf8(quote) + outputs_text(outputs)
}

/// Whether `signature`, as hexadecimal text, is a signature of the request for
/// `quote` with `outputs` under `pubkey`.
pub open spec fn is_signed_by(
    quote: Seq<char>,
    outputs: Seq<BlindedMessage>,
    signature: Seq<char>,
    pubkey: Seq<u8>,
) -> bool {
    let text = encode_utf8(signature);
    &&& is_hex(text)
    &&& text.len() == 128
    &&& schnorr_valid(pubkey, signed_digest(message_to_sign(quote, outputs)), unhex(text))
}

/// What the check of a request's signature under `pubkey` gives.
pub open spec fn signature_verdict(
    quote: Seq<char>,
    outputs: Seq<BlindedMessage>,
    signature: Option<String>,
    pubkey: Seq<u8>,
) -> Result<(), Error> {
    match signature {
        None => Err(Error::SignatureMissing),
        Some(s) => if is_signed_by(quote, outputs, s@, pubkey) {
            Ok(())
        } else {
            Err(Error::InvalidSignature)
        },
    }
}

/// The message that is signed for a quote and a list of outputs.
pub fn msg_to_sign(quote: &String, outputs: &Vec<BlindedMessage>) -> (msg: Vec<u8>)
    ensures
        msg@ == message_to_sign(quote@, outputs@),
{
    let mut msg: Vec<u8> = Vec::new();
    extend_bytes(&mut msg, quote.as_str().as_bytes());
    proof {
        assert(msg@ =~= encode_utf8(quote@));
    }
    let mut i: usize = 0;
    while i < outputs.len()
        invariant
            i <= outputs.len(),
            msg@ == encode_utf8(quote@) + outputs_text(outputs@.take(i as int)),
        decreases outputs.len() - i,
    {
        let text: Vec<u8> = outputs[i].blinded_secret.to_hex_bytes();
        proof {
            assert(outputs@.take(i + 1).drop_last() =~= outputs@.take(i as int));
            assert(msg@ + text@ =~= encode_utf8(quote@) + outputs_text(outputs@.take(i + 1)));
        }
        extend_bytes(&mut msg, text.as_slice());
        i = i + 1;
    }
    proof {
        assert(outputs@.take(i as int) =~= outputs@);
    }
    msg
}

/// Checks a signature, as hexadecimal text, of the request for `quote` with
/// `outputs` under `pubkey`.
pub fn verify_request_signature(
    quote: &String,
    outputs: &Vec<BlindedMessage>,
    signature: &Option<String>,
    pubkey: &PublicKey,
) -> (r: Result<(), Error>)
    ensures
        r == signature_verdict(quote@, outputs@, *signature, pubkey@),
{
    let text: &String = match signature {
        Some(text) => text,
        None => {
            return Err(Error::SignatureMissing);
        },
    };
    let bytes: Vec<u8> = match hex_decode(text.as_str().as_bytes()) {
        Some(bytes) => bytes,
        None => {
            return Err(Error::InvalidSignature);
        },
    };
    if bytes.len() != 64 {
        return Err(Error::InvalidSignature);
    }
    let msg: Vec<u8> = msg_to_sign(quote, outputs);
    match pubkey.verify(msg.as_slice(), bytes.as_slice()) {
        Ok(()) => Ok(()),
        Err(_) => Err(Error::InvalidSignature),
    }
}

/// A signature of the request for `quote` with `outputs` under `secret_key`,
/// as hexadecimal text; it verifies under the public key of `secret_key`.
/// Each call draws fresh randomness; it fails exactly where the bytes of the
/// key are no secret key.
pub fn sign_request(quote: &String, outputs: &Vec<BlindedMessage>, secret_key: &SecretKey) -> (r: Result<
    String,
    Error,
>)
    ensures
        r.is_ok() <==> secret_key.valid(),
        r.is_err() ==> r == Err::<String, Error>(Error::InvalidSecretKey),
        r matches Ok(text) ==> text@.len() == 128 && is_signed_by(
            quote@,
            outputs@,
            text@,
            public_point(secret_key@).unwrap(),
        ),
{
    let msg: Vec<u8> = msg_to_sign(quote, outputs);
    match secret_key.sign(msg.as_slice()) {
        Ok(signature) => {
            let hex: Vec<u8> = hex_encode(signature.as_slice());
            proof {
                lemma_ascii_utf8(hex@);
                lemma_unhex_hex(signature@);
            }
            Ok(ascii_string(hex))
        },
        Err(_) => Err(Error::InvalidSecretKey),
    }
}

impl MintRequest {
    /// What is signed for this request.
    pub fn msg_to_sign(&self) -> (msg: Vec<u8>)
        ensures
            msg@ == message_to_sign(self.quote@, self.outputs@),
    {
        msg_to_sign(&self.quote, &self.outputs)
    }

    /// Signs the request. On an error the request is as it was.
    pub fn sign(&mut self, secret_key: SecretKey) -> (r: Result<(), Error>)
        ensures
            final(self).quote == old(self).quote,
            final(self).outputs == old(self).outputs,
            r.is_ok() <==> secret_key.valid(),
            match r {
                Ok(()) => final(self).signature matches Some(text) && text@.len() == 128
                    && is_signed_by(
                    old(self).quote@,
                    old(self).outputs@,
                    text@,
                    public_point(secret_key@).unwrap(),
                ),
                Err(e) => e == Error::InvalidSecretKey && final(self).signature == old(self).signature,
            },
    {
        match sign_request(&self.quote, &self.outputs, &secret_key) {
            Ok(text) => {
                self.signature = Some(text);
                Ok(())
            },
            Err(e) => Err(e),
        }
    }

    /// Checks the signature of the request under `pubkey`.
    pub fn verify_signature(&self, pubkey: PublicKey) -> (r: Result<(), Error>)
        ensures
            r == signature_verdict(self.quote@, self.outputs@, self.signature, pubkey@),
    {
        verify_request_signature(&self.quote, &self.outputs, &self.signature, &pubkey)
    }
}

} // verus!
