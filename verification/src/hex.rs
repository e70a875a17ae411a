//! Hexadecimal text for byte strings.

use vstd::prelude::*;
use vstd::string::*;
use vstd::utf8::is_ascii_chars;

verus! {

/// The sixteen lower-case hexadecimal digits, in order of value.
pub open spec fn hex_digits() -> Seq<char> {
    seq!['0', '1', '2', '3', '4', '5', '6', '7', '8', '9', 'a', 'b', 'c', 'd', 'e', 'f']
}

/// The lower-case hexadecimal text of `bytes`: two digits for each byte, the
/// high half first.
pub open spec fn hex_encoded(bytes: Seq<u8>) -> Seq<char> {
    Seq::new(
        2 * bytes.len(),
        |i: int|
            if i % 2 == 0 {
                hex_digits()[bytes[i / 2] as int / 16]
            } else {
                hex_digits()[bytes[i / 2] as int % 16]
            },
    )
}

/// The value of the hexadecimal digit, of either case, that has the character
/// code `code`, if there is one.
pub open spec fn digit_value(code: int) -> Option<int> {
    if '0' as int <= code <= '9' as int {
        Some(code - '0' as int)
    } else if 'a' as int <= code <= 'f' as int {
        Some(code - 'a' as int + 10)
    } else if 'A' as int <= code <= 'F' as int {
        Some(code - 'A' as int + 10)
    } else {
        None
    }
}

/// The value of a hexadecimal digit of either case, if `c` is one.
pub open spec fn hex_value(c: char) -> Option<int> {
    digit_value(c as int)
}

/// Whether `text` is made of hexadecimal digits, an even number of them.
pub open spec fn is_hex(text: Seq<char>) -> bool {
    &&& text.len() % 2 == 0
    &&& forall|i: int| 0 <= i < text.len() ==> (#[trigger] hex_value(text[i])) is Some
}

/// The bytes that hexadecimal `text` stands for, if it is hexadecimal.
pub open spec fn hex_decoded(text: Seq<char>) -> Option<Seq<u8>> {
    if is_hex(text) {
        Some(
            Seq::new(
                text.len() / 2,
                |i: int|
                    (hex_value(text[2 * i]).unwrap() * 16 + hex_value(
                        text[2 * i + 1],
                    ).unwrap()) as u8,
            ),
        )
    } else {
        None
    }
}

/// Decoding undoes encoding.
pub proof fn lemma_hex_round_trip(bytes: Seq<u8>)
    ensures
        hex_decoded(hex_encoded(bytes)) == Some(bytes),
{
    let text = hex_encoded(bytes);
    assert forall|i: int| 0 <= i < text.len() implies (#[trigger] hex_value(text[i])) is Some by {
        lemma_digit_value(bytes[i / 2] as int / 16);
        lemma_digit_value(bytes[i / 2] as int % 16);
    }
    assert(is_hex(text));
    let back = hex_decoded(text).unwrap();
    assert forall|i: int| 0 <= i < bytes.len() implies back[i] == bytes[i] by {
        lemma_digit_value(bytes[i] as int / 16);
        lemma_digit_value(bytes[i] as int % 16);
        assert(text[2 * i] == hex_digits()[bytes[i] as int / 16]);
        assert(text[2 * i + 1] == hex_digits()[bytes[i] as int % 16]);
    }
    assert(back =~= bytes);
}

/// The digit for `n` has the value `n`.
proof fn lemma_digit_value(n: int)
    requires
        0 <= n < 16,
    ensures
        hex_value(hex_digits()[n]) == Some(n),
{
    if n == 0 {
    } else if n == 1 {
    } else if n == 2 {
    } else if n == 3 {
    } else if n == 4 {
    } else if n == 5 {
    } else if n == 6 {
    } else if n == 7 {
    } else if n == 8 {
    } else if n == 9 {
    } else if n == 10 {
    } else if n == 11 {
    } else if n == 12 {
    } else if n == 13 {
    } else if n == 14 {
    } else {
    }
}

/// Writes `bytes` as lower-case hexadecimal text.
pub fn to_hex(bytes: &[u8]) -> (text: String)
    ensures
        text@ == hex_encoded(bytes@),
{
    let digits = "0123456789abcdef";
    proof {
        reveal_strlit("0123456789abcdef");
        assert(digits@ =~= hex_digits());
    }
    let mut text = String::new();
    let mut i: usize = 0;
    while i < bytes.len()
        invariant
            i <= bytes.len(),
            digits@ == hex_digits(),
            digits.is_ascii(),
            text@ == hex_encoded(bytes@.take(i as int)),
        decreases bytes.len() - i,
    {
        let byte: u8 = bytes[i];
        let high: usize = (byte / 16) as usize;
        let low: usize = (byte % 16) as usize;
        text.append(digits.substring_ascii(high, high + 1));
        text.append(digits.substring_ascii(low, low + 1));
        proof {
            let before = bytes@.take(i as int);
            let after = bytes@.take(i + 1);
            assert(after =~= before.push(byte));
            assert(hex_encoded(after) =~= hex_encoded(before) + seq![hex_digits()[high as int]]
                + seq![hex_digits()[low as int]]);
            assert(digits@.subrange(high as int, high + 1) =~= seq![hex_digits()[high as int]]);
            assert(digits@.subrange(low as int, low + 1) =~= seq![hex_digits()[low as int]]);
        }
        i += 1;
    }
    proof {
        assert(bytes@.take(bytes.len() as int) =~= bytes@);
    }
    text
}

/// The value of the hexadecimal digit with the ASCII code `code`.
fn digit_of(code: u8) -> (value: Option<u8>)
    ensures
        match value {
            Some(v) => digit_value(code as int) == Some(v as int),
            None => digit_value(code as int) is None,
        },
{
    if 48 <= code && code <= 57 {
        Some(code - 48)
    } else if 97 <= code && code <= 102 {
        Some(code - 87)
    } else if 65 <= code && code <= 70 {
        Some(code - 55)
    } else {
        None
    }
}

/// Reads hexadecimal text, of either case, into the bytes it stands for.
/// Text that is not hexadecimal gives `None`.
pub fn from_hex(text: &str) -> (bytes: Option<Vec<u8>>)
    ensures
        match bytes {
            Some(b) => hex_decoded(text@) == Some(b@),
            None => hex_decoded(text@) is None,
        },
{
    if !text.is_ascii() {
        proof {
            let i = choose|i: int|
                0 <= i < text@.len() && !('\0' <= (#[trigger] text@[i]) <= '\u{7f}');
            assert(hex_value(text@[i]) is None);
        }
        return None;
    }
    let codes = text.as_bytes();
    proof {
        is_ascii_spec_bytes(text);
    }
    if codes.len() % 2 != 0 {
        return None;
    }
    let mut bytes: Vec<u8> = Vec::new();
    let mut i: usize = 0;
    while i < codes.len()
        invariant
            i <= codes.len(),
            i % 2 == 0,
            codes.len() % 2 == 0,
            codes@.len() == text@.len(),
            is_ascii_chars(text@),
            forall|j: int| 0 <= j < text@.len() ==> codes@[j] == text@[j] as u8,
            forall|j: int| 0 <= j < i ==> (#[trigger] hex_value(text@[j])) is Some,
            bytes@.len() == i / 2,
            forall|k: int|
                0 <= k < i / 2 ==> (#[trigger] bytes@[k]) as int == hex_value(
                    text@[2 * k],
                ).unwrap() * 16 + hex_value(text@[2 * k + 1]).unwrap(),
        decreases codes.len() - i,
    {
        let high = digit_of(codes[i]);
        let low = digit_of(codes[i + 1]);
        proof {
            assert(codes@[i as int] as int == text@[i as int] as int);
            assert(codes@[i + 1] as int == text@[i + 1] as int);
        }
        match (high, low) {
            (Some(h), Some(l)) => {
                bytes.push(h * 16 + l);
            },
            _ => {
                proof {
                    assert(hex_value(text@[i as int]) is None || hex_value(text@[i + 1]) is None);
                }
                return None;
            },
        }
        i += 2;
    }
    proof {
        assert(is_hex(text@));
        assert(bytes@ =~= hex_decoded(text@).unwrap());
    }
    Some(bytes)
}

} // verus!
