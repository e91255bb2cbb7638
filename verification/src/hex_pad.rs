//! Bytes written as hexadecimal digits, with or without a prefix that says so.

use vstd::prelude::*;
use vstd::slice::*;

verus! {

/// Why a text could not be read as bytes.
#[derive(Clone, Copy, PartialEq, Eq, Debug, Structural)]
pub enum FromHexError {
    /// A character that is not a hexadecimal digit, and where it stands.
    InvalidHexCharacter { c: char, index: usize },
    /// The number of digits is odd.
    OddLength,
    /// There are not twice as many digits as bytes are wanted.
    InvalidStringLength,
}

/// The value of a hexadecimal digit, upper or lower case.
pub open spec fn digit_value(digit: u8) -> Option<u8> {
    if 48 <= digit <= 57 {
        Some((digit - 48) as u8)
    } else if 65 <= digit <= 70 {
        Some((digit - 55) as u8)
    } else if 97 <= digit <= 102 {
        Some((digit - 87) as u8)
    } else {
        None
    }
}

/// Where the first character stands that is not a hexadecimal digit.
pub open spec fn first_invalid(hex: Seq<u8>) -> Option<usize>
    decreases hex.len(),
{
    if hex.len() == 0 {
        None
    } else {
        match first_invalid(hex.drop_last()) {
            Some(i) => Some(i),
            None => if digit_value(hex.last()) is None {
                Some((hex.len() - 1) as usize)
            } else {
                None
            },
        }
    }
}

/// The bytes that the digits stand for, two digits for each byte, the more significant one first.
pub open spec fn digit_pairs(hex: Seq<u8>) -> Seq<u8> {
    Seq::new(
        hex.len() / 2,
        |i: int|
            (digit_value(hex[2 * i])->Some_0 * 16 + digit_value(hex[2 * i + 1])->Some_0) as u8,
    )
}

/// The bytes that a text of hexadecimal digits stands for, or what is wrong with it.
pub open spec fn decoded(hex: Seq<u8>) -> Result<Seq<u8>, FromHexError> {
    if hex.len() % 2 != 0 {
        Err(FromHexError::OddLength)
    } else {
        match first_invalid(hex) {
            Some(i) => Err(
                FromHexError::InvalidHexCharacter { c: hex[i as int] as char, index: i },
            ),
            None => Ok(digit_pairs(hex)),
        }
    }
}

/// The same, where a number of bytes is wanted.
pub open spec fn decoded_to(hex: Seq<u8>, n: nat) -> Result<Seq<u8>, FromHexError> {
    if hex.len() % 2 == 0 && hex.len() / 2 != n {
        Err(FromHexError::InvalidStringLength)
    } else {
        decoded(hex)
    }
}

/// Whether a text starts with `0x` or `X'`.
pub open spec fn has_prefix(hex: Seq<u8>) -> bool {
    hex.len() >= 2 && ((hex[0] == 48 && hex[1] == 120) || (hex[0] == 88 && hex[1] == 39))
}

/// The text without the prefix, if it has one.
pub open spec fn without_prefix(hex: Seq<u8>) -> Seq<u8> {
    if has_prefix(hex) {
        hex.skip(2)
    } else {
        hex
    }
}

/// `hex::FromHex::from_hex` into a vector: refuses an odd number of digits first, then the first
/// character that is no digit, told with its place; else gives a byte for each pair of digits.
#[verifier::external_body]
fn decode_vec(hex: &[u8]) -> (r: Result<Vec<u8>, FromHexError>)
    ensures
        match r {
            Ok(bytes) => decoded(hex@) == Ok::<Seq<u8>, FromHexError>(bytes@),
            Err(e) => decoded(hex@) == Err::<Seq<u8>, FromHexError>(e),
        },
{
    match hex::FromHex::from_hex(hex) {
        Ok(bytes) => Ok(bytes),
        Err(hex::FromHexError::InvalidHexCharacter { c, index }) => Err(
            FromHexError::InvalidHexCharacter { c, index },
        ),
        Err(hex::FromHexError::OddLength) => Err(FromHexError::OddLength),
        Err(hex::FromHexError::InvalidStringLength) => Err(FromHexError::InvalidStringLength),
    }
}

/// `hex::decode_to_slice` into an array: like decoding into a vector, but between an odd number of
/// digits and a character that is no digit it refuses a number of digits that does not fill the
/// array.
#[verifier::external_body]
fn decode_array<const N: usize>(hex: &[u8]) -> (r: Result<[u8; N], FromHexError>)
    ensures
        match r {
            Ok(bytes) => decoded_to(hex@, N as nat) == Ok::<Seq<u8>, FromHexError>(bytes@),
            Err(e) => decoded_to(hex@, N as nat) == Err::<Seq<u8>, FromHexError>(e),
        },
{
    let mut out = [0u8; N];
    match hex::decode_to_slice(hex, &mut out) {
        Ok(()) => Ok(out),
        Err(hex::FromHexError::InvalidHexCharacter { c, index }) => Err(
            FromHexError::InvalidHexCharacter { c, index },
        ),
        Err(hex::FromHexError::OddLength) => Err(FromHexError::OddLength),
        Err(hex::FromHexError::InvalidStringLength) => Err(FromHexError::InvalidStringLength),
    }
}

/// The text without the prefix, if it has one.
pub fn strip_prefix(hex: &[u8]) -> (r: &[u8])
    ensures
        r@ == without_prefix(hex@),
{
    if hex.len() >= 2 && ((hex[0] == 48 && hex[1] == 120) || (hex[0] == 88 && hex[1] == 39)) {
        let rest = slice_subrange(hex, 2, hex.len());
        assert(rest@ =~= hex@.skip(2));
        rest
    } else {
        hex
    }
}

/// Converts a hexadecimal string to bytes.
///
/// If the hexadecimal string starts with "0x", these characters are ignored; so are "X'".
pub fn from_hex_pad(hex: &[u8]) -> (r: Result<Vec<u8>, FromHexError>)
    ensures
        match r {
            Ok(bytes) => decoded(without_prefix(hex@)) == Ok::<Seq<u8>, FromHexError>(bytes@),
            Err(e) => decoded(without_prefix(hex@)) == Err::<Seq<u8>, FromHexError>(e),
        },
{
    decode_vec(strip_prefix(hex))
}

/// Converts a hexadecimal string to an array of bytes, with the prefixes ignored as by
/// [`from_hex_pad`].
pub fn from_hex_pad_array<const N: usize>(hex: &[u8]) -> (r: Result<[u8; N], FromHexError>)
    ensures
        match r {
            Ok(bytes) => decoded_to(without_prefix(hex@), N as nat) == Ok::<
                Seq<u8>,
                FromHexError,
            >(bytes@),
            Err(e) => decoded_to(without_prefix(hex@), N as nat) == Err::<
                Seq<u8>,
                FromHexError,
            >(e),
        },
{
    decode_array(strip_prefix(hex))
}

/// What follows a prefix is read as it stands: each of the prefixes is ignored, once. So neither
/// makes a difference to a text that has no prefix of its own.
pub proof fn law_prefix_is_ignored(hex: Seq<u8>)
    ensures
        without_prefix(seq![48u8, 120u8] + hex) == hex,
        without_prefix(seq![88u8, 39u8] + hex) == hex,
        !has_prefix(hex) ==> {
            &&& without_prefix(seq![48u8, 120u8] + hex) == without_prefix(hex)
            &&& without_prefix(seq![88u8, 39u8] + hex) == without_prefix(hex)
        },
{
    assert((seq![48u8, 120u8] + hex).skip(2) =~= hex);
    assert((seq![88u8, 39u8] + hex).skip(2) =~= hex);
}

/// The digit of a value below sixteen, in upper or lower case.
pub open spec fn digit_of(value: int, upper: bool) -> u8 {
    if value < 10 {
        (value + 48) as u8
    } else if upper {
        (value + 55) as u8
    } else {
        (value + 87) as u8
    }
}

/// Bytes as digits, in upper or lower case.
pub open spec fn encoded(bytes: Seq<u8>, upper: bool) -> Seq<u8> {
    Seq::new(
        bytes.len() * 2,
        |i: int|
            if i % 2 == 0 {
                digit_of(bytes[i / 2] as int / 16, upper)
            } else {
                digit_of(bytes[i / 2] as int % 16, upper)
            },
    )
}

/// Bytes that were written as digits come back, in upper and lower case, into a vector and into an
/// array of their number, without a prefix and with either of them.
pub proof fn law_decoding_undoes_encoding(bytes: Seq<u8>, upper: bool)
    ensures
        ({
            let hex = encoded(bytes, upper);
            &&& decoded(without_prefix(hex)) == Ok::<Seq<u8>, FromHexError>(bytes)
            &&& decoded_to(without_prefix(hex), bytes.len()) == Ok::<Seq<u8>, FromHexError>(bytes)
            &&& without_prefix(seq![48u8, 120u8] + hex) == without_prefix(hex)
            &&& without_prefix(seq![88u8, 39u8] + hex) == without_prefix(hex)
        }),
{
    let hex = encoded(bytes, upper);
    assert forall|i: int| 0 <= i < hex.len() implies digit_value(#[trigger] hex[i]) is Some by {}
    lemma_all_valid(hex);
    if has_prefix(hex) {
        assert(digit_value(hex[1]) is Some);
        assert(digit_value(hex[0]) is Some);
    }
    assert forall|i: int| 0 <= i < bytes.len() implies #[trigger] digit_pairs(hex)[i]
        == bytes[i] by {
        assert((2 * i) / 2 == i && (2 * i) % 2 == 0);
        assert((2 * i + 1) / 2 == i && (2 * i + 1) % 2 == 1);
        assert(hex[2 * i] == digit_of(bytes[i] as int / 16, upper));
        assert(hex[2 * i + 1] == digit_of(bytes[i] as int % 16, upper));
    }
    assert(digit_pairs(hex) =~= bytes);
    law_prefix_is_ignored(hex);
}

proof fn lemma_all_valid(hex: Seq<u8>)
    requires
        forall|i: int| 0 <= i < hex.len() ==> digit_value(#[trigger] hex[i]) is Some,
    ensures
        first_invalid(hex) is None,
    decreases hex.len(),
{
    if hex.len() > 0 {
        lemma_all_valid(hex.drop_last());
    }
}

/// What is refused for a character is refused for the first one that is no digit.
pub proof fn law_first_invalid_character_is_told(hex: Seq<u8>)
    requires
        hex.len() <= usize::MAX,
    ensures
        match first_invalid(hex) {
            Some(i) => {
                &&& i < hex.len()
                &&& digit_value(hex[i as int]) is None
                &&& forall|j: int| 0 <= j < i ==> digit_value(#[trigger] hex[j]) is Some
            },
            None => forall|j: int| 0 <= j < hex.len() ==> digit_value(#[trigger] hex[j]) is Some,
        },
    decreases hex.len(),
{
    if hex.len() > 0 {
        law_first_invalid_character_is_told(hex.drop_last());
        assert(forall|j: int| 0 <= j < hex.len() - 1 ==> hex.drop_last()[j] == hex[j]);
        if first_invalid(hex.drop_last()) is None && digit_value(hex.last()) is Some {
            assert forall|j: int| 0 <= j < hex.len() implies digit_value(
                #[trigger] hex[j],
            ) is Some by {
                if j < hex.len() - 1 {
                    assert(hex.drop_last()[j] == hex[j]);
                }
            }
        }
        if let Some(i) = first_invalid(hex.drop_last()) {
            assert forall|j: int| 0 <= j < i implies digit_value(#[trigger] hex[j]) is Some by {
                assert(hex.drop_last()[j] == hex[j]);
            }
        }
    }
}

/// Only the two prefixes are ignored: a text that starts with neither is read as it stands.
pub proof fn law_nothing_else_is_ignored(hex: Seq<u8>)
    ensures
        has_prefix(hex) <==> hex.len() >= 2 && (hex.take(2) == seq![48u8, 120u8] || hex.take(2)
            == seq![88u8, 39u8]),
        without_prefix(hex) == hex || (hex.len() >= 2 && without_prefix(hex) == hex.skip(2)),
        !has_prefix(hex) ==> without_prefix(hex) == hex,
        without_prefix(hex) != hex ==> has_prefix(hex),
{
    if hex.len() >= 2 {
        let front = hex.take(2);
        assert(front[0] == hex[0] && front[1] == hex[1]);
        if hex[0] == 48 && hex[1] == 120 {
            assert(front =~= seq![48u8, 120u8]);
        }
        if hex[0] == 88 && hex[1] == 39 {
            assert(front =~= seq![88u8, 39u8]);
        }
        if front == seq![48u8, 120u8] {
            assert(seq![48u8, 120u8][0] == front[0] && seq![48u8, 120u8][1] == front[1]);
        }
        if front == seq![88u8, 39u8] {
            assert(seq![88u8, 39u8][0] == front[0] && seq![88u8, 39u8][1] == front[1]);
        }
    }
}

/// A text is accepted exactly when it has an even number of characters, all of them digits, and
/// then each byte is sixteen times the value of its first digit and the value of its second. An odd
/// number is refused before any character is looked at.
pub proof fn law_accepted_texts_are_pairs_of_digits(hex: Seq<u8>)
    requires
        hex.len() <= usize::MAX,
    ensures
        hex.len() % 2 == 1 <==> decoded(hex) == Err::<Seq<u8>, FromHexError>(
            FromHexError::OddLength,
        ),
        decoded(hex) is Ok <==> hex.len() % 2 == 0 && forall|i: int|
            0 <= i < hex.len() ==> digit_value(#[trigger] hex[i]) is Some,
        decoded(hex) matches Ok(bytes) ==> {
            &&& 2 * bytes.len() == hex.len()
            &&& forall|i: int|
                0 <= i < bytes.len() ==> (#[trigger] bytes[i]) as int == 16 * digit_value(
                    hex[2 * i],
                )->Some_0 + digit_value(hex[2 * i + 1])->Some_0
        },
        decoded(hex) matches Err(FromHexError::InvalidHexCharacter { c, index }) ==> {
            &&& index < hex.len()
            &&& c == hex[index as int] as char
            &&& digit_value(hex[index as int]) is None
            &&& forall|j: int| 0 <= j < index ==> digit_value(#[trigger] hex[j]) is Some
        },
        !(decoded(hex) == Err::<Seq<u8>, FromHexError>(FromHexError::InvalidStringLength)),
{
    law_first_invalid_character_is_told(hex);
    if let Ok(bytes) = decoded(hex) {
        assert forall|i: int| 0 <= i < bytes.len() implies (#[trigger] bytes[i]) as int == 16
            * digit_value(hex[2 * i])->Some_0 + digit_value(hex[2 * i + 1])->Some_0 by {
            assert(digit_value(hex[2 * i]) is Some);
            assert(digit_value(hex[2 * i + 1]) is Some);
        }
    }
}

/// The digits are `0` to `9`, and `a` to `f` in upper and lower case, and their values count from
/// zero to fifteen; no other character is a digit.
pub proof fn law_digits_count_to_fifteen(c: u8)
    ensures
        digit_value(c) is Some <==> ('0' as u8 <= c <= '9' as u8 || 'A' as u8 <= c <= 'F' as u8
            || 'a' as u8 <= c <= 'f' as u8),
        digit_value('0' as u8) == Some(0u8),
        digit_value('A' as u8) == Some(10u8),
        digit_value('a' as u8) == Some(10u8),
        c < 255 && digit_value(c) is Some && digit_value((c + 1) as u8) is Some ==> digit_value(
            (c + 1) as u8,
        )->Some_0 == digit_value(c)->Some_0 + 1,
{
}

/// Where a number of bytes is wanted, just that many come, or the text is refused as without that
/// number; only a text of another even length is refused for its length.
pub proof fn law_wanted_number_is_given_or_told(hex: Seq<u8>, n: nat)
    ensures
        decoded_to(hex, n) == Err::<Seq<u8>, FromHexError>(FromHexError::InvalidStringLength)
            <==> hex.len() % 2 == 0 && hex.len() != 2 * n,
        hex.len() == 2 * n ==> decoded_to(hex, n) == decoded(hex),
        hex.len() % 2 == 1 ==> decoded_to(hex, n) == decoded(hex),
        decoded_to(hex, n) matches Ok(bytes) ==> bytes.len() == n && decoded(hex) == Ok::<
            Seq<u8>,
            FromHexError,
        >(bytes),
{
}

} // verus!
