//! Decimal text for integers: rendering values into digit strings for the
//! pretty-printer and diagnostics, and reading an integer literal's lexeme
//! back into a signed 32-bit value.

use vstd::prelude::*;
use vstd::string::*;

verus! {

/// The decimal digit character for a value below ten.
pub open spec fn dec_digit(d: int) -> char {
    if d == 0 {
        '0'
    } else if d == 1 {
        '1'
    } else if d == 2 {
        '2'
    } else if d == 3 {
        '3'
    } else if d == 4 {
        '4'
    } else if d == 5 {
        '5'
    } else if d == 6 {
        '6'
    } else if d == 7 {
        '7'
    } else if d == 8 {
        '8'
    } else {
        '9'
    }
}

/// The canonical decimal rendering of a non-negative integer.
pub open spec fn spec_udec(n: int) -> Seq<char>
    decreases n,
{
    if n < 10 {
        seq![dec_digit(n)]
    } else {
        spec_udec(n / 10).push(dec_digit(n % 10))
    }
}

/// The canonical decimal rendering of a signed integer: a leading `-` for
/// negative values, then the magnitude's digits.
pub open spec fn spec_idec(n: int) -> Seq<char> {
    if n < 0 {
        seq!['-'] + spec_udec(-n)
    } else {
        spec_udec(n)
    }
}

/// The single-character string for a decimal digit value.
fn digit_str(d: u64) -> (r: &'static str)
    requires
        d < 10,
    ensures
        r@ =~= seq![dec_digit(d as int)],
{
    proof {
        reveal_strlit("0");
        reveal_strlit("1");
        reveal_strlit("2");
        reveal_strlit("3");
        reveal_strlit("4");
        reveal_strlit("5");
        reveal_strlit("6");
        reveal_strlit("7");
        reveal_strlit("8");
        reveal_strlit("9");
    }
    if d == 0 {
        "0"
    } else if d == 1 {
        "1"
    } else if d == 2 {
        "2"
    } else if d == 3 {
        "3"
    } else if d == 4 {
        "4"
    } else if d == 5 {
        "5"
    } else if d == 6 {
        "6"
    } else if d == 7 {
        "7"
    } else if d == 8 {
        "8"
    } else {
        "9"
    }
}

/// Renders a non-negative value in decimal.
pub fn u64_to_string(n: u64) -> (r: String)
    ensures
        r@ == spec_udec(n as int),
    decreases n,
{
    if n < 10 {
        let s = String::from_str(digit_str(n));
        proof {
            assert(s@ =~= spec_udec(n as int));
        }
        s
    } else {
        let high = u64_to_string(n / 10);
        let r = high.concat(digit_str(n % 10));
        proof {
            assert(r@ =~= spec_udec(n as int));
        }
        r
    }
}

/// Renders a signed 32-bit value in decimal, with a leading `-` when
/// negative.
pub fn i32_to_string(n: i32) -> (r: String)
    ensures
        r@ == spec_idec(n as int),
{
    if n >= 0 {
        u64_to_string(n as u64)
    } else {
        let magnitude: u64 = (-(n as i64)) as u64;
        let r = String::from_str("-").concat(u64_to_string(magnitude).as_str());
        proof {
            reveal_strlit("-");
            assert(r@ =~= spec_idec(n as int));
        }
        r
    }
}

/// True of a decimal digit character.
pub open spec fn is_dig(c: char) -> bool {
    48 <= c as int <= 57
}

/// True of a non-empty run of decimal digit characters.
pub open spec fn all_digits(s: Seq<char>) -> bool {
    s.len() > 0 && forall|i: int| 0 <= i < s.len() ==> is_dig(s[i])
}

/// The value of a run of decimal digit characters.
pub open spec fn spec_digits_val(s: Seq<char>) -> int
    decreases s.len(),
{
    if s.len() == 0 {
        0
    } else {
        spec_digits_val(s.drop_last()) * 10 + (s.last() as int - 48)
    }
}

/// What an integer literal's lexeme denotes: its value when the lexeme is a
/// digit run whose value fits in an `i32`, nothing otherwise.
pub open spec fn spec_parse_i32(s: Seq<char>) -> Option<i32> {
    if all_digits(s) && spec_digits_val(s) <= i32::MAX {
        Some(spec_digits_val(s) as i32)
    } else {
        None
    }
}

proof fn lemma_digits_val_nonneg(s: Seq<char>)
    requires
        forall|i: int| 0 <= i < s.len() ==> is_dig(s[i]),
    ensures
        spec_digits_val(s) >= 0,
    decreases s.len(),
{
    if s.len() > 0 {
        lemma_digits_val_nonneg(s.drop_last());
    }
}

proof fn lemma_digits_prefix_le(s: Seq<char>, j: int)
    requires
        forall|i: int| 0 <= i < s.len() ==> is_dig(s[i]),
        0 <= j <= s.len(),
    ensures
        spec_digits_val(s.take(j)) <= spec_digits_val(s),
    decreases s.len(),
{
    if j == s.len() {
        assert(s.take(j) =~= s);
    } else {
        let shorter = s.drop_last();
        lemma_digits_val_nonneg(shorter);
        lemma_digits_prefix_le(shorter, j);
        assert(s.take(j) =~= shorter.take(j));
    }
}

/// Reads a decimal digit run as an `i32`: the literal's value when every
/// character is a digit and the value fits, nothing otherwise.
pub fn parse_i32_str(s: &str) -> (r: Option<i32>)
    ensures
        r == spec_parse_i32(s@),
{
    let n = s.unicode_len();
    if n == 0 {
        return None;
    }
    let mut acc: u64 = 0;
    let mut i: usize = 0;
    while i < n
        invariant
            0 <= i <= n,
            n == s@.len(),
            forall|k: int| 0 <= k < i ==> is_dig(s@[k]),
            acc == spec_digits_val(s@.take(i as int)),
            acc <= i32::MAX,
        decreases n - i,
    {
        let c = s.get_char(i);
        let cv = c as u32;
        if cv < 48 || cv > 57 {
            return None;
        }
        let d: u64 = (cv - 48) as u64;
        let next: u64 = acc * 10 + d;
        proof {
            assert(s@.take(i + 1).drop_last() =~= s@.take(i as int));
        }
        if next > 0x7fff_ffff {
            proof {
                if all_digits(s@) {
                    lemma_digits_prefix_le(s@, i + 1);
                }
            }
            return None;
        }
        acc = next;
        i = i + 1;
    }
    proof {
        assert(s@.take(n as int) =~= s@);
    }
    Some(acc as i32)
}

/// Rendering a non-negative value and reading the digits back yields the
/// value again: decimal text round-trips.
pub proof fn lemma_udec_round_trip(n: int)
    requires
        0 <= n <= i32::MAX,
    ensures
        spec_parse_i32(spec_udec(n)) == Some(n as i32),
{
    lemma_udec_digits(n);
    lemma_udec_value(n);
}

proof fn lemma_udec_digits(n: int)
    requires
        n >= 0,
    ensures
        spec_udec(n).len() > 0,
        forall|i: int| 0 <= i < spec_udec(n).len() ==> is_dig(#[trigger] spec_udec(n)[i]),
    decreases n,
{
    if n >= 10 {
        lemma_udec_digits(n / 10);
        assert forall|i: int| 0 <= i < spec_udec(n).len() implies is_dig(
            #[trigger] spec_udec(n)[i],
        ) by {
            if i < spec_udec(n / 10).len() {
                assert(spec_udec(n)[i] == spec_udec(n / 10)[i]);
            }
        }
    }
}

proof fn lemma_udec_value(n: int)
    requires
        n >= 0,
    ensures
        spec_digits_val(spec_udec(n)) == n,
    decreases n,
{
    reveal_with_fuel(spec_digits_val, 3);
    if n < 10 {
        assert(spec_udec(n).drop_last() =~= Seq::<char>::empty());
        assert(dec_digit(n) as int - 48 == n);
    } else {
        lemma_udec_value(n / 10);
        assert(spec_udec(n).drop_last() =~= spec_udec(n / 10));
        assert(spec_udec(n).last() == dec_digit(n % 10));
        assert(0 <= n % 10 < 10);
        assert(dec_digit(n % 10) as int - 48 == n % 10);
        vstd::arithmetic::div_mod::lemma_fundamental_div_mod(n, 10);
    }
}

} // verus!
