//! Decimal and hexadecimal renderings used in commitments and ledger rows.

use vstd::prelude::*;
use vstd::string::*;

verus! {

/// The character of a single decimal digit.
pub open spec fn digit_char(d: nat) -> char
    recommends
        d < 10,
{
    (d + 48) as u8 as char
}

/// The decimal digits of `n`, most significant first, with no leading zero
/// (and the single digit `0` for zero).
pub open spec fn decimal(n: nat) -> Seq<char>
    decreases n,
{
    if n < 10 {
        seq![digit_char(n)]
    } else {
        decimal(n / 10).push(digit_char(n % 10))
    }
}

/// The lower-case character of a hexadecimal digit.
pub open spec fn hex_char(v: nat) -> char
    recommends
        v < 16,
{
    if v < 10 {
        (v + 48) as u8 as char
    } else {
        (v + 87) as u8 as char
    }
}

/// Two lower-case hexadecimal digits per byte, high nibble first.
pub open spec fn hex_lower(bytes: Seq<u8>) -> Seq<char>
    decreases bytes.len(),
{
    if bytes.len() == 0 {
        Seq::empty()
    } else {
        hex_lower(bytes.drop_last()).push(hex_char(bytes.last() as nat / 16)).push(
            hex_char(bytes.last() as nat % 16),
        )
    }
}

/// A rendering is never empty, and only digits occur in it.
pub proof fn lemma_decimal_digits(n: nat)
    ensures
        decimal(n).len() >= 1,
        forall|i: int| 0 <= i < decimal(n).len() ==> '0' <= #[trigger] decimal(n)[i] <= '9',
    decreases n,
{
    if n >= 10 {
        lemma_decimal_digits(n / 10);
    }
}

/// Different numbers have different renderings, so a rendering identifies its number.
pub proof fn lemma_decimal_injective(a: nat, b: nat)
    requires
        decimal(a) == decimal(b),
    ensures
        a == b,
    decreases a,
{
    lemma_decimal_digits(a / 10);
    lemma_decimal_digits(b / 10);
    if a < 10 && b < 10 {
        assert(decimal(a) =~= seq![digit_char(a)]);
        assert(decimal(b) =~= seq![digit_char(b)]);
        assert(seq![digit_char(a)][0] == seq![digit_char(b)][0]);
        assert(digit_char(a) as u32 == a + 48);
        assert(digit_char(b) as u32 == b + 48);
    } else if a >= 10 && b >= 10 {
        assert(decimal(a).drop_last() =~= decimal(a / 10));
        assert(decimal(b).drop_last() =~= decimal(b / 10));
        assert(decimal(a).last() == digit_char(a % 10));
        assert(decimal(b).last() == digit_char(b % 10));
        assert(digit_char(a % 10) as u32 == a % 10 + 48);
        assert(digit_char(b % 10) as u32 == b % 10 + 48);
        lemma_decimal_injective(a / 10, b / 10);
    } else if a < 10 {
        assert(decimal(a).len() == 1);
        assert(decimal(b).len() == decimal(b / 10).len() + 1);
    } else {
        assert(decimal(b).len() == 1);
        assert(decimal(a).len() == decimal(a / 10).len() + 1);
    }
}

/// Every byte contributes exactly two characters.
pub proof fn lemma_hex_lower_len(bytes: Seq<u8>)
    ensures
        hex_lower(bytes).len() == 2 * bytes.len(),
    decreases bytes.len(),
{
    if bytes.len() > 0 {
        lemma_hex_lower_len(bytes.drop_last());
    }
}

fn digit_text(d: u64) -> (text: &'static str)
    requires
        d < 10,
    ensures
        text@ == seq![digit_char(d as nat)],
{
    proof {
        reveal_strlit("0");
        reveal_strlit("1");
        reveal_strlit("2");
        reveal_strlit("3");
        reveal_strlit("4");
        reveal_strlit("5");
        reveal_strlit("6");
        reveal_strlit("7");
        reveal_strlit("8");
        reveal_strlit("9");
    }
    let text = if d == 0 {
        "0"
    } else if d == 1 {
        "1"
    } else if d == 2 {
        "2"
    } else if d == 3 {
        "3"
    } else if d == 4 {
        "4"
    } else if d == 5 {
        "5"
    } else if d == 6 {
        "6"
    } else if d == 7 {
        "7"
    } else if d == 8 {
        "8"
    } else {
        "9"
    };
    assert(text@ =~= seq![digit_char(d as nat)]);
    text
}

fn hex_text(v: u8) -> (text: &'static str)
    requires
        v < 16,
    ensures
        text@ == seq![hex_char(v as nat)],
{
    if v < 10 {
        digit_text(v as u64)
    } else {
        proof {
            reveal_strlit("a");
            reveal_strlit("b");
            reveal_strlit("c");
            reveal_strlit("d");
            reveal_strlit("e");
            reveal_strlit("f");
        }
        let text = if v == 10 {
            "a"
        } else if v == 11 {
            "b"
        } else if v == 12 {
            "c"
        } else if v == 13 {
            "d"
        } else if v == 14 {
            "e"
        } else {
            "f"
        };
        assert(text@ =~= seq![hex_char(v as nat)]);
        text
    }
}

/// Whether two byte strings are the same.
pub fn same_bytes(left: &[u8], right: &[u8]) -> (same: bool)
    ensures
        same == (left@ == right@),
{
    if left.len() != right.len() {
        return false;
    }
    let mut i: usize = 0;
    while i < left.len()
        invariant
            left@.len() == right@.len(),
            i <= left@.len(),
            forall|j: int| 0 <= j < i ==> left@[j] == right@[j],
        decreases left.len() - i,
    {
        if left[i] != right[i] {
            assert(left@[i as int] != right@[i as int]);
            return false;
        }
        i += 1;
    }
    assert(left@ =~= right@);
    true
}

/// Whether two texts are the same, character for character.
pub fn same_text(a: &str, b: &str) -> (same: bool)
    ensures
        same == (a@ == b@),
{
    proof {
        vstd::utf8::encode_utf8_decode_utf8(a@);
        vstd::utf8::encode_utf8_decode_utf8(b@);
    }
    same_bytes(a.as_bytes(), b.as_bytes())
}

/// Renders `n` in decimal.
pub fn decimal_string(n: u64) -> (text: String)
    ensures
        text@ == decimal(n as nat),
    decreases n,
{
    if n < 10 {
        String::from_str(digit_text(n))
    } else {
        let mut text = decimal_string(n / 10);
        text.append(digit_text(n % 10));
        assert(text@ =~= decimal(n as nat));
        text
    }
}

/// Renders `bytes` in lower-case hexadecimal.
pub fn hex_string(bytes: &[u8]) -> (text: String)
    ensures
        text@ == hex_lower(bytes@),
{
    let mut text = String::new();
    let mut i: usize = 0;
    while i < bytes.len()
        invariant
            i <= bytes.len(),
            text@ == hex_lower(bytes@.take(i as int)),
        decreases bytes.len() - i,
    {
        let b: u8 = bytes[i];
        text.append(hex_text(b / 16));
        text.append(hex_text(b % 16));
        proof {
            let upto = bytes@.take(i + 1);
            assert(upto.drop_last() =~= bytes@.take(i as int));
            assert(upto.last() == b);
            assert(text@ =~= hex_lower(upto));
        }
        i += 1;
    }
    assert(bytes@.take(i as int) =~= bytes@);
    text
}

} // verus!
