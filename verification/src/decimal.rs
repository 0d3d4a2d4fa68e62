//! Decimal numerals.
//!
//! The spec side defines what a base-ten digit string denotes
//! ([`numeral_val`]) and which digit string canonically renders a number
//! ([`spec_digits`]). The exec side parses a numeral into a `u64`
//! ([`parse_u64_decimal`]) and renders a `u64` back into text
//! ([`u64_to_decimal`]).

use vstd::prelude::*;

verus! {

/// Is `c` one of the ten ASCII decimal digits?
pub open spec fn is_digit_char(c: char) -> bool {
    48 <= c as int && c as int <= 57
}

/// The numeric value of a decimal digit character.
pub open spec fn digit_val(c: char) -> int {
    c as int - 48
}

/// Does `s` consist of one or more decimal digits and nothing else?
/// This is exactly the set of strings accepted by standard unsigned
/// integer parsing, before any range check: no sign, no whitespace,
/// no grouping separators.
pub open spec fn is_numeral(s: Seq<char>) -> bool {
    s.len() > 0 && forall|i: int| 0 <= i < s.len() ==> is_digit_char(#[trigger] s[i])
}

/// The value denoted by a digit string, most significant digit first.
pub open spec fn numeral_val(s: Seq<char>) -> int
    decreases s.len(),
{
    if s.len() == 0 {
        0
    } else {
        numeral_val(s.drop_last()) * 10 + digit_val(s.last())
    }
}

/// The digit character of a value below ten.
pub open spec fn digit_char(d: nat) -> char {
    if d == 0 {
        '0'
    } else if d == 1 {
        '1'
    } else if d == 2 {
        '2'
    } else if d == 3 {
        '3'
    } else if d == 4 {
        '4'
    } else if d == 5 {
        '5'
    } else if d == 6 {
        '6'
    } else if d == 7 {
        '7'
    } else if d == 8 {
        '8'
    } else {
        '9'
    }
}

/// The canonical decimal rendering of `n`: no sign, no leading zeros
/// (zero itself is the single digit `0`).
pub open spec fn spec_digits(n: nat) -> Seq<char>
    decreases n,
{
    if n < 10 {
        seq![digit_char(n)]
    } else {
        spec_digits(n / 10).push(digit_char(n % 10))
    }
}

/// Every character of a canonical rendering is a decimal digit, so the
/// rendering of any number is a numeral.
pub proof fn lemma_digits_are_numeral(n: nat)
    ensures
        is_numeral(spec_digits(n)),
    decreases n,
{
    if n < 10 {
        assert(is_digit_char(digit_char(n)));
    } else {
        lemma_digits_are_numeral(n / 10);
        assert(is_digit_char(digit_char(n % 10)));
        assert(forall|i: int|
            0 <= i < spec_digits(n).len() ==> is_digit_char(#[trigger] spec_digits(n)[i])) by {
            assert(forall|i: int|
                0 <= i < spec_digits(n / 10).len() ==> is_digit_char(
                    #[trigger] spec_digits(n / 10)[i],
                ));
        }
    }
}

/// Rendering is faithful: the value denoted by the canonical rendering
/// of `n` is `n` itself.
pub proof fn lemma_digits_val(n: nat)
    ensures
        numeral_val(spec_digits(n)) == n,
    decreases n,
{
    if n < 10 {
        let s = spec_digits(n);
        assert(s.drop_last() =~= Seq::<char>::empty());
        assert(numeral_val(s) == numeral_val(s.drop_last()) * 10 + digit_val(s.last()));
        assert(digit_val(digit_char(n)) == n);
    } else {
        lemma_digits_val(n / 10);
        let s = spec_digits(n);
        assert(s == spec_digits(n / 10).push(digit_char(n % 10)));
        assert(s.drop_last() =~= spec_digits(n / 10));
        assert(s.last() == digit_char(n % 10));
        assert(digit_val(digit_char(n % 10)) == n % 10);
        assert(numeral_val(s) == numeral_val(spec_digits(n / 10)) * 10 + digit_val(
            digit_char(n % 10),
        ));
        vstd::arithmetic::div_mod::lemma_fundamental_div_mod(n as int, 10);
    }
}

/// A string of digits denotes a non-negative value.
proof fn lemma_numeral_val_nonneg(s: Seq<char>)
    requires
        forall|i: int| 0 <= i < s.len() ==> is_digit_char(#[trigger] s[i]),
    ensures
        numeral_val(s) >= 0,
    decreases s.len(),
{
    if s.len() > 0 {
        lemma_numeral_val_nonneg(s.drop_last());
    }
}

/// Within a string of digits, the value of a prefix never exceeds the
/// value of a longer prefix.
proof fn lemma_numeral_prefix_le(s: Seq<char>, i: int, j: int)
    requires
        forall|k: int| 0 <= k < s.len() ==> is_digit_char(#[trigger] s[k]),
        0 <= i <= j <= s.len(),
    ensures
        numeral_val(s.subrange(0, i)) <= numeral_val(s.subrange(0, j)),
    decreases j - i,
{
    if i < j {
        lemma_numeral_prefix_le(s, i, j - 1);
        let shorter = s.subrange(0, j - 1);
        let longer = s.subrange(0, j);
        assert(longer.drop_last() =~= shorter);
        lemma_numeral_val_nonneg(shorter);
        assert(numeral_val(longer) == numeral_val(shorter) * 10 + digit_val(s[j - 1]));
    }
}

/// The single-character text of a value below ten.
fn digit_str(d: u64) -> (r: &'static str)
    requires
        d < 10,
    ensures
        r@ =~= seq![digit_char(d as nat)],
{
    let r: &'static str = if d == 0 {
        "0"
    } else if d == 1 {
        "1"
    } else if d == 2 {
        "2"
    } else if d == 3 {
        "3"
    } else if d == 4 {
        "4"
    } else if d == 5 {
        "5"
    } else if d == 6 {
        "6"
    } else if d == 7 {
        "7"
    } else if d == 8 {
        "8"
    } else {
        "9"
    };
    proof {
        reveal_strlit("0");
        reveal_strlit("1");
        reveal_strlit("2");
        reveal_strlit("3");
        reveal_strlit("4");
        reveal_strlit("5");
        reveal_strlit("6");
        reveal_strlit("7");
        reveal_strlit("8");
        reveal_strlit("9");
        assert(r@ =~= seq![digit_char(d as nat)]);
    }
    r
}

/// Render `n` as its canonical decimal text.
pub fn u64_to_decimal(n: u64) -> (r: String)
    ensures
        r@ == spec_digits(n as nat),
    decreases n,
{
    if n < 10 {
        String::from_str(digit_str(n))
    } else {
        let mut prefix = u64_to_decimal(n / 10);
        prefix.append(digit_str(n % 10));
        proof {
            assert((n / 10) as nat == (n as nat) / 10);
            assert((n % 10) as nat == (n as nat) % 10);
            assert(prefix@ =~= spec_digits((n as nat) / 10).push(digit_char((n as nat) % 10)));
        }
        prefix
    }
}

/// Parse `s` as an unsigned decimal numeral into a `u64`.
///
/// Succeeds exactly on the strings of one or more decimal digits whose
/// value fits in 64 bits, and then returns that value.
pub fn parse_u64_decimal(s: &str) -> (r: Option<u64>)
    ensures
        r is Some <==> is_numeral(s@) && numeral_val(s@) <= u64::MAX,
        r is Some ==> r->0 == numeral_val(s@),
{
    let len = s.unicode_len();
    if len == 0 {
        return None;
    }
    let mut acc: u64 = 0;
    let mut i: usize = 0;
    while i < len
        invariant
            0 <= i <= len,
            len == s@.len(),
            forall|k: int| 0 <= k < i ==> is_digit_char(#[trigger] s@[k]),
            acc == numeral_val(s@.subrange(0, i as int)),
        decreases len - i,
    {
        let c = s.get_char(i);
        let code = c as u32;
        if code < 48 || code > 57 {
            return None;
        }
        let d = (code - 48) as u64;
        proof {
            assert(s@.subrange(0, i as int + 1).drop_last() =~= s@.subrange(0, i as int));
            assert(digit_val(s@[i as int]) == d);
        }
        if acc > u64::MAX / 10 {
            proof {
                lemma_overflow_propagates(s@, i as int, acc as int, d as int);
            }
            return None;
        }
        let shifted = acc * 10;
        if d > u64::MAX - shifted {
            proof {
                lemma_overflow_propagates(s@, i as int, acc as int, d as int);
            }
            return None;
        }
        acc = shifted + d;
        i = i + 1;
    }
    proof {
        assert(s@.subrange(0, len as int) =~= s@);
    }
    Some(acc)
}

/// If the numeral value already exceeds `u64::MAX` after some prefix,
/// it exceeds it for the whole string of digits.
proof fn lemma_overflow_propagates(s: Seq<char>, i: int, acc: int, d: int)
    requires
        0 <= i < s.len(),
        acc == numeral_val(s.subrange(0, i)),
        d == digit_val(s[i]),
        acc * 10 + d > u64::MAX,
    ensures
        is_numeral(s) ==> numeral_val(s) > u64::MAX,
{
    if is_numeral(s) {
        assert(s.subrange(0, i + 1).drop_last() =~= s.subrange(0, i));
        assert(numeral_val(s.subrange(0, i + 1)) == acc * 10 + d);
        lemma_numeral_prefix_le(s, i + 1, s.len() as int);
        assert(s.subrange(0, s.len() as int) =~= s);
    }
}

} // verus!
