//! Byte-to-text conversions: UTF-8 decoding of byte payloads and the
//! lowercase hexadecimal rendering of raw payloads.

use vstd::prelude::*;
use vstd::utf8::{decode_utf8, encode_utf8, encode_utf8_decode_utf8, encode_utf8_valid_utf8,
    valid_utf8};

verus! {

pub uninterp spec fn lossy_decoded(bytes: Seq<u8>) -> Seq<char>;

/// Relies on `String::from_utf8_lossy`: the decoding depends on the bytes
/// alone, and a valid UTF-8 sequence decodes losslessly to its characters.
#[verifier::external_body]
fn decode_lossy(bytes: &[u8]) -> (r: String)
    ensures
        r@ == lossy_decoded(bytes@),
        valid_utf8(bytes@) ==> r@ == decode_utf8(bytes@),
{
    String::from_utf8_lossy(bytes).into_owned()
}

/// The text a byte payload reads as: a valid UTF-8 sequence reads as its
/// characters, anything else as the lossy decoding with substitution
/// characters.
pub open spec fn decoded_text(bytes: Seq<u8>) -> Seq<char> {
    if valid_utf8(bytes) {
        decode_utf8(bytes)
    } else {
        lossy_decoded(bytes)
    }
}

/// Decode a byte payload, substituting the replacement character for
/// invalid sequences.
pub(crate) fn decode_bytes(bytes: &[u8]) -> (r: String)
    ensures
        r@ == decoded_text(bytes@),
{
    decode_lossy(bytes)
}

/// Encoding characters to UTF-8 and reading the bytes back as text is the
/// identity: every string survives the byte payload unchanged.
pub proof fn lemma_text_round_trip(s: Seq<char>)
    ensures
        decoded_text(encode_utf8(s)) == s,
{
    encode_utf8_valid_utf8(s);
    encode_utf8_decode_utf8(s);
}

/// The lowercase hexadecimal digit for a value below 16.
pub open spec fn hex_digit(n: u8) -> char
    recommends
        n < 16,
{
    if n == 0 {
        '0'
    } else if n == 1 {
        '1'
    } else if n == 2 {
        '2'
    } else if n == 3 {
        '3'
    } else if n == 4 {
        '4'
    } else if n == 5 {
        '5'
    } else if n == 6 {
        '6'
    } else if n == 7 {
        '7'
    } else if n == 8 {
        '8'
    } else if n == 9 {
        '9'
    } else if n == 10 {
        'a'
    } else if n == 11 {
        'b'
    } else if n == 12 {
        'c'
    } else if n == 13 {
        'd'
    } else if n == 14 {
        'e'
    } else {
        'f'
    }
}

/// The lowercase hexadecimal rendering of a byte sequence: two digits per
/// byte, no separators, no prefix.
pub open spec fn hex_text(bytes: Seq<u8>) -> Seq<char>
    decreases bytes.len(),
{
    if bytes.len() == 0 {
        seq![]
    } else {
        hex_text(bytes.drop_last()) + seq![
            hex_digit(bytes.last() >> 4),
            hex_digit(bytes.last() & 0x0f),
        ]
    }
}

/// The one-character string slice for a hexadecimal digit.
pub(crate) fn hex_digit_str(n: u8) -> (r: &'static str)
    requires
        n < 16,
    ensures
        r@ == seq![hex_digit(n)],
{
    proof {
        reveal_strlit("0");
        reveal_strlit("1");
        reveal_strlit("2");
        reveal_strlit("3");
        reveal_strlit("4");
        reveal_strlit("5");
        reveal_strlit("6");
        reveal_strlit("7");
        reveal_strlit("8");
        reveal_strlit("9");
        reveal_strlit("a");
        reveal_strlit("b");
        reveal_strlit("c");
        reveal_strlit("d");
        reveal_strlit("e");
        reveal_strlit("f");
    }
    match n {
        0 => "0",
        1 => "1",
        2 => "2",
        3 => "3",
        4 => "4",
        5 => "5",
        6 => "6",
        7 => "7",
        8 => "8",
        9 => "9",
        10 => "a",
        11 => "b",
        12 => "c",
        13 => "d",
        14 => "e",
        _ => "f",
    }
}

/// Render a byte sequence as lowercase hexadecimal text.
pub(crate) fn hex_string(bytes: &[u8]) -> (r: String)
    ensures
        r@ == hex_text(bytes@),
{
    let mut out = String::new();
    let mut i: usize = 0;
    while i < bytes.len()
        invariant
            i <= bytes@.len(),
            out@ == hex_text(bytes@.take(i as int)),
        decreases bytes@.len() - i,
    {
        let b = bytes[i];
        let hi: u8 = b >> 4;
        let lo: u8 = b & 0x0f;
        assert(b >> 4 < 16 && b & 0x0f < 16) by (bit_vector);
        out.append(hex_digit_str(hi));
        out.append(hex_digit_str(lo));
        proof {
            let taken = bytes@.take(i + 1);
            assert(taken.drop_last() =~= bytes@.take(i as int));
            assert(taken.last() == bytes@[i as int]);
            assert(out@ =~= hex_text(taken));
        }
        i = i + 1;
    }
    proof {
        assert(bytes@.take(bytes@.len() as int) =~= bytes@);
    }
    out
}

} // verus!
