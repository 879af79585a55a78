//! Decimal numbers as text: reading them and writing them.

use vstd::prelude::*;
use crate::text::{is_digit, owned};

verus! {

/// Why a text is not a number of the wanted type.
#[derive(Debug, Clone, Copy, PartialEq, Eq, Structural)]
pub enum NumberError {
    /// The text is empty.
    Empty,
    /// The text holds a character that is not a decimal digit.
    InvalidDigit,
    /// The number is larger than the wanted type can hold.
    TooLarge,
}

impl NumberError {
    /// The words for the fault.
    pub open spec fn text(self) -> Seq<char> {
        match self {
            NumberError::Empty => "cannot parse integer from empty string"@,
            NumberError::InvalidDigit => "invalid digit found in string"@,
            NumberError::TooLarge => "number too large to fit in target type"@,
        }
    }

    /// The words for the fault.
    pub fn message(&self) -> (r: String)
        ensures
            r@ == self.text(),
    {
        match self {
            NumberError::Empty => owned("cannot parse integer from empty string"),
            NumberError::InvalidDigit => owned("invalid digit found in string"),
            NumberError::TooLarge => owned("number too large to fit in target type"),
        }
    }
}

/// The value of a decimal digit.
pub open spec fn digit_value(c: char) -> nat {
    (c as u32 - '0' as u32) as nat
}

/// The digit that writes a value below ten.
pub open spec fn digit_char(n: nat) -> char {
    ((n + 48) as u8) as char
}

/// The number that a text of decimal digits writes; 0 for the empty text.
pub open spec fn decimal_value(s: Seq<char>) -> nat
    decreases s.len(),
{
    if s.len() == 0 {
        0
    } else {
        decimal_value(s.drop_last()) * 10 + digit_value(s.last())
    }
}

/// Whether `s` is made of decimal digits only.
pub open spec fn is_digits(s: Seq<char>) -> bool {
    forall|i: int| 0 <= i < s.len() ==> is_digit(#[trigger] s[i])
}

/// The length of the longest prefix of `s` made of decimal digits.
pub open spec fn digit_run(s: Seq<char>) -> nat
    decreases s.len(),
{
    if s.len() > 0 && is_digit(s[0]) {
        1 + digit_run(s.drop_first())
    } else {
        0
    }
}

/// The text behind an optional leading plus sign. A lone `+` is left as it is.
pub open spec fn unsigned_part(s: Seq<char>) -> Seq<char> {
    if s.len() > 1 && s[0] == '+' {
        s.drop_first()
    } else {
        s
    }
}

/// What reading `s` as an unsigned decimal number no larger than `max` gives.
///
/// The text is an optional `+` followed by digits. Reading goes from left to
/// right and stops at the first fault: a number that has grown past `max`, or a
/// character that is not a digit.
pub open spec fn parsed_unsigned(s: Seq<char>, max: nat) -> Result<nat, NumberError> {
    if s.len() == 0 {
        Err(NumberError::Empty)
    } else {
        let body = unsigned_part(s);
        let run = digit_run(body);
        let value = decimal_value(body.take(run as int));
        if value > max {
            Err(NumberError::TooLarge)
        } else if run < body.len() {
            Err(NumberError::InvalidDigit)
        } else {
            Ok(value)
        }
    }
}

/// `digit_run` is the index of the first character that is not a digit.
pub proof fn lemma_digit_run(s: Seq<char>, k: int)
    requires
        0 <= k <= s.len(),
        forall|i: int| 0 <= i < k ==> is_digit(#[trigger] s[i]),
        k < s.len() ==> !is_digit(s[k]),
    ensures
        digit_run(s) == k,
    decreases k,
{
    if k > 0 {
        let t = s.drop_first();
        assert(is_digit(s[0]));
        assert forall|i: int| 0 <= i < k - 1 implies is_digit(#[trigger] t[i]) by {
            assert(t[i] == s[i + 1]);
        }
        lemma_digit_run(t, k - 1);
    }
}

/// A longer prefix of digits writes a number that is no smaller.
pub proof fn lemma_decimal_value_grows(s: Seq<char>, i: int, j: int)
    requires
        0 <= i <= j <= s.len(),
    ensures
        decimal_value(s.take(i)) <= decimal_value(s.take(j)),
    decreases j - i,
{
    if i < j {
        lemma_decimal_value_grows(s, i, j - 1);
        assert(s.take(j).drop_last() == s.take(j - 1));
    }
}

/// Reads `v` as an unsigned decimal number no larger than `max`.
pub fn parse_unsigned(v: &Vec<char>, max: u64) -> (r: Result<u64, NumberError>)
    ensures
        match r {
            Ok(n) => parsed_unsigned(v@, max as nat) == Ok::<nat, NumberError>(n as nat),
            Err(e) => parsed_unsigned(v@, max as nat) == Err::<nat, NumberError>(e),
        },
{
    let n = v.len();
    if n == 0 {
        return Err(NumberError::Empty);
    }
    let start: usize = if n > 1 && v[0] == '+' {
        1
    } else {
        0
    };
    let ghost body = unsigned_part(v@);
    assert(body == v@.subrange(start as int, n as int));
    let mut acc: u64 = 0;
    let mut i: usize = start;
    assert(body.take(0) == Seq::<char>::empty());
    while i < n
        invariant
            start <= i <= n,
            n == v.len(),
            body == v@.subrange(start as int, n as int),
            body == unsigned_part(v@),
            forall|k: int| 0 <= k < i - start ==> is_digit(#[trigger] body[k]),
            acc == decimal_value(body.take(i - start)),
            acc <= max,
        decreases n - i,
    {
        let c = v[i];
        assert(body[i - start] == c);
        let ghost next = body.take(i - start + 1);
        assert(next.drop_last() == body.take(i - start));
        assert(next.last() == c);
        if !('0' <= c && c <= '9') {
            proof {
                lemma_digit_run(body, i - start);
            }
            return Err(NumberError::InvalidDigit);
        }
        let d: u64 = (c as u32 - '0' as u32) as u64;
        if d > max || acc > (max - d) / 10 {
            proof {
                assert(acc * 10 + d > max) by (nonlinear_arith)
                    requires
                        d > max || acc > (max - d) / 10,
                        acc >= 0,
                        max >= 0,
                {
                }
                let run = digit_run(body);
                // the run reaches at least past this digit
                lemma_run_at_least(body, i - start + 1);
                lemma_decimal_value_grows(body, i - start + 1, run as int);
            }
            return Err(NumberError::TooLarge);
        }
        assert(acc * 10 + d <= max) by (nonlinear_arith)
            requires
                acc <= (max - d) / 10,
                d <= max,
                acc >= 0,
        {
        }
        acc = acc * 10 + d;
        i = i + 1;
    }
    proof {
        lemma_digit_run(body, n - start);
        assert(body.take(n - start) == body);
    }
    Ok(acc)
}

/// Where the first `k` characters are digits, the digit run is at least `k` long.
pub proof fn lemma_run_at_least(s: Seq<char>, k: int)
    requires
        0 <= k <= s.len(),
        forall|i: int| 0 <= i < k ==> is_digit(#[trigger] s[i]),
    ensures
        k <= digit_run(s) <= s.len(),
    decreases s.len(),
{
    if s.len() > 0 && is_digit(s[0]) {
        let t = s.drop_first();
        if k > 0 {
            assert forall|i: int| 0 <= i < k - 1 implies is_digit(#[trigger] t[i]) by {
                assert(t[i] == s[i + 1]);
            }
            lemma_run_at_least(t, k - 1);
        } else {
            lemma_run_at_least(t, 0);
        }
    } else {
        if k > 0 {
            assert(is_digit(s[0]));
        }
    }
}

/// The decimal digits that write `n`, without leading zeros; `0` for zero.
pub open spec fn decimal_text(n: nat) -> Seq<char>
    decreases n,
{
    if n < 10 {
        seq![digit_char(n)]
    } else {
        decimal_text(n / 10).push(digit_char(n % 10))
    }
}

/// A text of `count` zeros.
pub open spec fn zeros(count: nat) -> Seq<char> {
    Seq::new(count, |i: int| '0')
}

/// The decimal digits that write `n`, with zeros in front up to `width`
/// characters. A number that needs more than `width` digits is written in full.
pub open spec fn padded_decimal(n: nat, width: nat) -> Seq<char> {
    let t = decimal_text(n);
    if t.len() >= width {
        t
    } else {
        zeros((width - t.len()) as nat) + t
    }
}

/// Writes `n` in decimal digits.
pub fn decimal(n: u64) -> (r: Vec<char>)
    ensures
        r@ == decimal_text(n as nat),
    decreases n,
{
    if n < 10 {
        let c: char = ((n + 48) as u8) as char;
        let mut v: Vec<char> = Vec::new();
        v.push(c);
        assert(v@ == seq![c]);
        v
    } else {
        let mut v = decimal(n / 10);
        let c: char = ((n % 10 + 48) as u8) as char;
        v.push(c);
        v
    }
}

/// Writes `n` in decimal digits, with zeros in front up to `width` characters.
pub fn padded(n: u64, width: usize) -> (r: Vec<char>)
    ensures
        r@ == padded_decimal(n as nat, width as nat),
{
    let digits = decimal(n);
    if digits.len() >= width {
        return digits;
    }
    let fill: usize = width - digits.len();
    let mut r: Vec<char> = Vec::new();
    let mut i: usize = 0;
    while i < fill
        invariant
            i <= fill,
            r@ == zeros(i as nat),
        decreases fill - i,
    {
        r.push('0');
        assert(r@ == zeros((i + 1) as nat));
        i = i + 1;
    }
    let mut j: usize = 0;
    while j < digits.len()
        invariant
            j <= digits.len(),
            r@ == zeros(fill as nat) + digits@.take(j as int),
        decreases digits.len() - j,
    {
        r.push(digits[j]);
        assert(digits@.take(j + 1) == digits@.take(j as int).push(digits@[j as int]));
        j = j + 1;
    }
    assert(digits@.take(digits.len() as int) == digits@);
    r
}

/// The digits that write a number are digits, and they write that number.
pub proof fn lemma_decimal_text(n: nat)
    ensures
        decimal_text(n).len() >= 1,
        is_digits(decimal_text(n)),
        decimal_value(decimal_text(n)) == n,
    decreases n,
{
    if n < 10 {
        let t = decimal_text(n);
        assert(t.drop_last() == Seq::<char>::empty());
        assert(decimal_value(t.drop_last()) == 0);
    } else {
        lemma_decimal_text(n / 10);
        let t = decimal_text(n);
        assert(t.drop_last() == decimal_text(n / 10));
        assert(is_digits(t)) by {
            assert forall|i: int| 0 <= i < t.len() implies is_digit(#[trigger] t[i]) by {
                if i < t.len() - 1 {
                    assert(t[i] == decimal_text(n / 10)[i]);
                }
            }
        }
    }
}

/// Zeros in front of a text of digits do not change the number it writes.
pub proof fn lemma_zeros_in_front(count: nat, t: Seq<char>)
    ensures
        decimal_value(zeros(count) + t) == decimal_value(t),
    decreases t.len(),
{
    let s = zeros(count) + t;
    if t.len() == 0 {
        assert(s == zeros(count));
        lemma_zeros_value(count);
    } else {
        assert(s.drop_last() == zeros(count) + t.drop_last());
        lemma_zeros_in_front(count, t.drop_last());
    }
}

/// A text of zeros writes zero.
pub proof fn lemma_zeros_value(count: nat)
    ensures
        decimal_value(zeros(count)) == 0,
    decreases count,
{
    if count > 0 {
        assert(zeros(count).drop_last() == zeros((count - 1) as nat));
        lemma_zeros_value((count - 1) as nat);
    }
}

/// Reading gives back what writing was given: a number written with any
/// padding reads as that number, whenever it is within the limit.
pub proof fn lemma_padded_roundtrip(n: nat, width: nat, max: nat)
    requires
        n <= max,
    ensures
        parsed_unsigned(padded_decimal(n, width), max) == Ok::<nat, NumberError>(n),
{
    let t = decimal_text(n);
    let s = padded_decimal(n, width);
    lemma_decimal_text(n);
    if t.len() >= width {
    } else {
        lemma_zeros_in_front((width - t.len()) as nat, t);
        assert forall|i: int| 0 <= i < s.len() implies is_digit(#[trigger] s[i]) by {
            if i >= width - t.len() {
                assert(s[i] == t[i - (width - t.len())]);
            }
        }
    }
    assert(is_digit(s[0]));
    assert(unsigned_part(s) == s);
    lemma_digit_run(s, s.len() as int);
    assert(s.take(s.len() as int) == s);
}

} // verus!
