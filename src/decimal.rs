//! Decimal integer text: what `i64`'s parser accepts and what its
//! formatter writes, and the fact that the two agree.

use vstd::prelude::*;

verus! {

/// Is `c` one of the ASCII digits `0` to `9`?
pub open spec fn is_digit(c: char) -> bool {
    '0' <= c && c <= '9'
}

/// The value of the digit `c`.
pub open spec fn digit_value(c: char) -> int {
    (c as u32) - ('0' as u32)
}

/// The digit character of a value below ten.
pub open spec fn digit_char(d: int) -> char {
    seq!['0', '1', '2', '3', '4', '5', '6', '7', '8', '9'][d]
}

pub open spec fn all_digits(ds: Seq<char>) -> bool {
    forall|i: int| 0 <= i < ds.len() ==> is_digit(#[trigger] ds[i])
}

/// The value of a string of digits, most significant first.
pub open spec fn digits_value(ds: Seq<char>) -> int
    decreases ds.len(),
{
    if ds.len() == 0 {
        0
    } else {
        digits_value(ds.drop_last()) * 10 + digit_value(ds.last())
    }
}

/// A non-empty run of digits and its value.
pub open spec fn unsigned_value(ds: Seq<char>) -> Option<int> {
    if ds.len() > 0 && all_digits(ds) {
        Some(digits_value(ds))
    } else {
        None
    }
}

/// The `i64` that `s` denotes: an optional `+` or `-`, then one or more
/// digits, with a value that fits in `i64`. `None` for anything else.
pub open spec fn decimal_value(s: Seq<char>) -> Option<int> {
    let v = if s.len() > 0 && s[0] == '-' {
        match unsigned_value(s.drop_first()) {
            Some(n) => Some(-n),
            None => None,
        }
    } else if s.len() > 0 && s[0] == '+' {
        unsigned_value(s.drop_first())
    } else {
        unsigned_value(s)
    };
    match v {
        Some(n) => if i64::MIN <= n <= i64::MAX {
            Some(n)
        } else {
            None
        },
        None => None,
    }
}

/// The shortest digit string of `n`.
pub open spec fn digits_text(n: nat) -> Seq<char>
    decreases n,
{
    if n < 10 {
        seq![digit_char(n as int)]
    } else {
        digits_text(n / 10).push(digit_char((n % 10) as int))
    }
}

/// How an integer is written: its digits, after a `-` when negative.
pub open spec fn decimal_text(v: int) -> Seq<char> {
    if v < 0 {
        seq!['-'] + digits_text((-v) as nat)
    } else {
        digits_text(v as nat)
    }
}

proof fn lemma_digit_char(d: int)
    requires
        0 <= d < 10,
    ensures
        is_digit(digit_char(d)),
        digit_value(digit_char(d)) == d,
{
    assert(seq!['0', '1', '2', '3', '4', '5', '6', '7', '8', '9'][d] == digit_char(d));
}

proof fn lemma_digits_text(n: nat)
    ensures
        digits_text(n).len() > 0,
        all_digits(digits_text(n)),
        digits_value(digits_text(n)) == n,
    decreases n,
{
    if n < 10 {
        lemma_digit_char(n as int);
        let t = digits_text(n);
        assert(t.drop_last() =~= Seq::<char>::empty());
        assert(digits_value(t) == digits_value(t.drop_last()) * 10 + digit_value(t.last()));
    } else {
        lemma_digits_text(n / 10);
        lemma_digit_char((n % 10) as int);
        let t = digits_text(n);
        assert(t.drop_last() =~= digits_text(n / 10));
        assert(t.last() == digit_char((n % 10) as int));
        assert(digits_value(t) == digits_value(t.drop_last()) * 10 + digit_value(t.last()));
        assert(n == (n / 10) * 10 + n % 10);
        assert forall|i: int| 0 <= i < t.len() implies is_digit(#[trigger] t[i]) by {
            if i < t.len() - 1 {
                assert(t[i] == digits_text(n / 10)[i]);
            }
        }
    }
}

/// Reading back what was written gives the same integer.
pub proof fn lemma_decimal_round_trip(v: i64)
    ensures
        decimal_value(decimal_text(v as int)) == Some(v as int),
{
    let t = decimal_text(v as int);
    if v < 0 {
        lemma_digits_text((-v) as nat);
        assert(t.drop_first() =~= digits_text((-v) as nat));
    } else {
        lemma_digits_text(v as nat);
        let d = digits_text(v as nat);
        assert(is_digit(d[0]));
    }
}

/// The words of `str::parse::<i64>`'s error for a text it refuses.
pub uninterp spec fn int_error_text(s: Seq<char>) -> Seq<char>;

/// Relies on `str::parse::<i64>`, which accepts exactly an optional sign
/// followed by digits whose value fits in `i64`; a refusal is handed on
/// as its error's `Display` text, which depends on the text alone.
#[verifier::external_body]
pub(crate) fn parse_i64(s: &str) -> (r: Result<i64, String>)
    ensures
        r is Ok <==> decimal_value(s@) is Some,
        r matches Ok(v) ==> decimal_value(s@) == Some(v as int),
        r matches Err(m) ==> m@ == int_error_text(s@),
{
    s.parse::<i64>().map_err(|e| e.to_string())
}

/// Relies on `i64`'s `Display` (through `to_string`): the shortest decimal
/// form, with a `-` in front of a negative number.
#[verifier::external_body]
pub(crate) fn i64_text(v: i64) -> (r: String)
    ensures
        r@ == decimal_text(v as int),
{
    v.to_string()
}

} // verus!
