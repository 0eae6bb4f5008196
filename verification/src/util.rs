//! Bytes, hexadecimal text and the clock.

use vstd::prelude::*;

verus! {

/// The ASCII code of the lower-case hexadecimal digit for `n`, where `n` is
/// under sixteen.
pub open spec fn hex_digit(n: int) -> u8 {
    if n < 10 {
        (0x30 + n) as u8
    } else {
        (0x57 + n) as u8
    }
}

/// The lower-case hexadecimal text of `bytes`, two ASCII digits for each byte,
/// the high half first.
pub open spec fn hex_of(bytes: Seq<u8>) -> Seq<u8> {
    Seq::new(
        2 * bytes.len(),
        |i: int|
            if i % 2 == 0 {
                hex_digit(bytes[i / 2] as int / 16)
            } else {
                hex_digit(bytes[i / 2] as int % 16)
            },
    )
}

/// The value of the hexadecimal digit with ASCII code `c`, in either case, or
/// `None` where `c` is no such digit.
pub open spec fn hex_value(c: u8) -> Option<int> {
    if 0x30 <= c <= 0x39 {
        Some(c - 0x30)
    } else if 0x61 <= c <= 0x66 {
        Some(c - 0x57)
    } else if 0x41 <= c <= 0x46 {
        Some(c - 0x37)
    } else {
        None
    }
}

/// `text` is hexadecimal text of whole bytes.
pub open spec fn is_hex(text: Seq<u8>) -> bool {
    &&& text.len() % 2 == 0
    &&& forall|i: int| 0 <= i < text.len() ==> hex_value(#[trigger] text[i]).is_some()
}

/// The bytes that the hexadecimal text `text` stands for.
pub open spec fn unhex(text: Seq<u8>) -> Seq<u8> {
    Seq::new(
        text.len() / 2,
        |i: int| (16 * hex_value(text[2 * i]).unwrap() + hex_value(text[2 * i + 1]).unwrap()) as u8,
    )
}

/// Every byte is an ASCII code.
pub open spec fn is_ascii_bytes(bytes: Seq<u8>) -> bool {
    forall|i: int| 0 <= i < bytes.len() ==> #[trigger] bytes[i] < 0x80
}

/// The characters with the ASCII codes `bytes`.
pub open spec fn ascii_chars(bytes: Seq<u8>) -> Seq<char> {
    Seq::new(bytes.len(), |i: int| bytes[i] as char)
}

/// The ASCII code of the hexadecimal digit for the low half of `n`.
fn hex_digit_of(n: u8) -> (d: u8)
    requires
        n < 16,
    ensures
        d == hex_digit(n as int),
        d < 0x80,
{
    if n < 10 {
        0x30 + n
    } else {
        0x57 + n
    }
}

/// The value of a hexadecimal digit.
fn hex_value_of(c: u8) -> (v: Option<u8>)
    ensures
        match v {
            Some(n) => hex_value(c) == Some(n as int) && n < 16,
            None => hex_value(c).is_none(),
        },
{
    if 0x30 <= c && c <= 0x39 {
        Some(c - 0x30)
    } else if 0x61 <= c && c <= 0x66 {
        Some(c - 0x57)
    } else if 0x41 <= c && c <= 0x46 {
        Some(c - 0x37)
    } else {
        None
    }
}

/// The lower-case hexadecimal text of `bytes`.
pub fn hex_encode(bytes: &[u8]) -> (text: Vec<u8>)
    ensures
        text@ == hex_of(bytes@),
        is_ascii_bytes(text@),
{
    let mut text: Vec<u8> = Vec::new();
    let mut i: usize = 0;
    while i < bytes.len()
        invariant
            i <= bytes.len(),
            text@ == hex_of(bytes@.take(i as int)),
            is_ascii_bytes(text@),
        decreases bytes.len() - i,
    {
        let b: u8 = bytes[i];
        let high: u8 = hex_digit_of(b / 16);
        let low: u8 = hex_digit_of(b % 16);
        proof {
            let before = bytes@.take(i as int);
            let after = bytes@.take(i + 1);
            assert(text@.push(high).push(low) =~= hex_of(after)) by {
                assert forall|k: int| 0 <= k < 2 * (i + 1) implies text@.push(high).push(low)[k]
                    == hex_of(after)[k] by {
                    if k < 2 * i {
                        assert(before[k / 2] == after[k / 2]);
                    }
                }
            }
        }
        text.push(high);
        text.push(low);
        i = i + 1;
    }
    proof {
        assert(bytes@.take(i as int) =~= bytes@);
    }
    text
}

/// The bytes that hexadecimal text stands for, or `None` where `text` is not
/// hexadecimal text of whole bytes.
pub fn hex_decode(text: &[u8]) -> (bytes: Option<Vec<u8>>)
    ensures
        match bytes {
            Some(b) => is_hex(text@) && b@ == unhex(text@),
            None => !is_hex(text@),
        },
{
    if text.len() % 2 != 0 {
        return None;
    }
    let mut bytes: Vec<u8> = Vec::new();
    let mut i: usize = 0;
    while i < text.len() / 2
        invariant
            text.len() % 2 == 0,
            i <= text.len() / 2,
            bytes@.len() == i,
            forall|k: int| 0 <= k < 2 * i ==> hex_value(#[trigger] text@[k]).is_some(),
            forall|k: int| 0 <= k < i ==> #[trigger] bytes@[k] == unhex(text@)[k],
        decreases text.len() / 2 - i,
    {
        let high: u8 = match hex_value_of(text[2 * i]) {
            Some(v) => v,
            None => {
                return None;
            },
        };
        let low: u8 = match hex_value_of(text[2 * i + 1]) {
            Some(v) => v,
            None => {
                return None;
            },
        };
        bytes.push(16 * high + low);
        i = i + 1;
    }
    proof {
        assert(bytes@ =~= unhex(text@));
    }
    Some(bytes)
}

/// Decoding what was encoded gives the bytes back.
pub proof fn lemma_unhex_hex(bytes: Seq<u8>)
    ensures
        is_hex(hex_of(bytes)),
        unhex(hex_of(bytes)) == bytes,
{
    let text = hex_of(bytes);
    assert forall|i: int| 0 <= i < text.len() implies hex_value(#[trigger] text[i]).is_some() by {
        let b = bytes[i / 2];
        assert(0 <= b as int / 16 < 16 && 0 <= b as int % 16 < 16);
    }
    assert forall|i: int| 0 <= i < bytes.len() implies unhex(text)[i] == bytes[i] by {
        let b = bytes[i];
        assert((2 * i) / 2 == i && (2 * i + 1) / 2 == i);
        assert(text[2 * i] == hex_digit(b as int / 16));
        assert(text[2 * i + 1] == hex_digit(b as int % 16));
        assert(16 * (b as int / 16) + b as int % 16 == b);
    }
    assert(unhex(text) =~= bytes);
}

/// The UTF-8 form of ASCII text is its ASCII codes.
pub proof fn lemma_ascii_utf8(bytes: Seq<u8>)
    requires
        is_ascii_bytes(bytes),
    ensures
        vstd::utf8::encode_utf8(ascii_chars(bytes)) == bytes,
{
    let chars = ascii_chars(bytes);
    assert forall|i: int| 0 <= i < chars.len() implies '\0' <= #[trigger] chars[i] <= '\u{7f}' by {
        assert(bytes[i] < 0x80);
    }
    vstd::utf8::is_ascii_chars_encode_utf8(chars);
    assert forall|i: int| 0 <= i < bytes.len() implies vstd::utf8::encode_utf8(chars)[i] == bytes[i] by {
        assert(chars[i] as u8 == bytes[i]);
    }
    assert(vstd::utf8::encode_utf8(chars) =~= bytes);
}

/// Whether two byte strings hold the same bytes.
pub fn bytes_eq(a: &[u8], b: &[u8]) -> (same: bool)
    ensures
        same == (a@ == b@),
{
    if a.len() != b.len() {
        return false;
    }
    let mut i: usize = 0;
    while i < a.len()
        invariant
            a.len() == b.len(),
            i <= a.len(),
            forall|k: int| 0 <= k < i ==> a@[k] == b@[k],
        decreases a.len() - i,
    {
        if a[i] != b[i] {
            return false;
        }
        i = i + 1;
    }
    proof {
        assert(a@ =~= b@);
    }
    true
}

/// Appends a copy of `src` to `dst`.
pub fn extend_bytes(dst: &mut Vec<u8>, src: &[u8])
    ensures
        final(dst)@ == old(dst)@ + src@,
{
    let mut i: usize = 0;
    while i < src.len()
        invariant
            i <= src.len(),
            dst@ == old(dst)@ + src@.take(i as int),
        decreases src.len() - i,
    {
        proof {
            assert(src@.take(i + 1) =~= src@.take(i as int).push(src@[i as int]));
        }
        dst.push(src[i]);
        i = i + 1;
    }
    proof {
        assert(src@.take(i as int) =~= src@);
    }
}

/// `std::string::String::from_utf8` on ASCII codes: the text whose characters
/// have these codes, one character for each byte. ASCII is valid UTF-8, so the
/// conversion does not fail on what `requires` admits.
#[verifier::external_body]
pub(crate) fn ascii_string(bytes: Vec<u8>) -> (text: String)
    requires
        is_ascii_bytes(bytes@),
    ensures
        text@ == ascii_chars(bytes@),
{
    String::from_utf8(bytes).unwrap_or_default()
}

/// `std::time::SystemTime::now`, as whole seconds since the Unix epoch (zero
/// for a clock set before it). Nothing is claimed of the value: it is the
/// machine's time.
#[verifier::external_body]
pub(crate) fn unix_time() -> (now: u64) {
    std::time::SystemTime::now().duration_since(std::time::UNIX_EPOCH).unwrap_or_default().as_secs()
}

} // verus!
