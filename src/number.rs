//! Decimal integers as written in text.
use vstd::prelude::*;

use crate::text::push_char;

verus! {

pub open spec fn is_digit(c: char) -> bool {
    '0' <= c && c <= '9'
}

pub open spec fn digit_value(c: char) -> int {
    (c as int) - ('0' as int)
}

pub open spec fn all_digits(s: Seq<char>) -> bool {
    forall|i: int| 0 <= i < s.len() ==> is_digit(#[trigger] s[i])
}

/// The number that the decimal digits `s` write, most significant first.
pub open spec fn digits_value(s: Seq<char>) -> int
    decreases s.len(),
{
    if s.len() == 0 {
        0
    } else {
        10 * digits_value(s.drop_last()) + digit_value(s.last())
    }
}

/// The integer that `s` writes: an optional sign (`-` only where `signed`)
/// followed by at least one decimal digit.
pub open spec fn integer_of(s: Seq<char>, signed: bool) -> Option<int> {
    if s.len() > 0 && s[0] == '+' && s.len() > 1 && all_digits(s.skip(1)) {
        Some(digits_value(s.skip(1)))
    } else if signed && s.len() > 1 && s[0] == '-' && all_digits(s.skip(1)) {
        Some(-digits_value(s.skip(1)))
    } else if s.len() > 0 && all_digits(s) {
        Some(digits_value(s))
    } else {
        None
    }
}

proof fn lemma_digits_value_nonneg(s: Seq<char>)
    requires
        all_digits(s),
    ensures
        digits_value(s) >= 0,
    decreases s.len(),
{
    if s.len() > 0 {
        assert(s.drop_last() =~= s.take(s.len() - 1));
        lemma_digits_value_nonneg(s.drop_last());
        assert(is_digit(s[s.len() - 1]));
    }
}

/// A longer run of digits writes at least as large a number.
proof fn lemma_digits_value_grows(s: Seq<char>, k: int)
    requires
        all_digits(s),
        0 <= k <= s.len(),
    ensures
        digits_value(s.take(k)) <= digits_value(s),
    decreases s.len() - k,
{
    if k < s.len() {
        lemma_digits_value_grows(s, k + 1);
        let t = s.take(k + 1);
        assert(t.drop_last() =~= s.take(k));
        assert(is_digit(s[k]));
        lemma_digits_value_nonneg(s.take(k));
    } else {
        assert(s.take(k) =~= s);
    }
}

/// The magnitude written by the digits `cs[from..]`, where it does not exceed
/// `bound`; `None` where a character is not a digit, there are none, or the
/// magnitude is larger.
fn magnitude(cs: &Vec<char>, from: usize, bound: u64) -> (r: Option<u64>)
    requires
        from <= cs.len(),
    ensures
        r is Some <==> (from < cs.len() && all_digits(cs@.skip(from as int))
            && digits_value(cs@.skip(from as int)) <= bound),
        r is Some ==> r->0 == digits_value(cs@.skip(from as int)),
{
    let ghost s = cs@.skip(from as int);
    if from == cs.len() {
        return None;
    }
    let mut acc: u64 = 0;
    let mut i: usize = from;
    while i < cs.len()
        invariant
            s == cs@.skip(from as int),
            from <= i <= cs.len(),
            all_digits(s.take(i - from)),
            acc == digits_value(s.take(i - from)),
            acc <= bound,
        decreases cs.len() - i,
    {
        let c = cs[i];
        if !('0' <= c && c <= '9') {
            assert(s[i - from] == c);
            return None;
        }
        let d = (c as u32 - '0' as u32) as u64;
        let ghost t = s.take(i + 1 - from);
        assert(t.drop_last() =~= s.take(i - from));
        assert(all_digits(t)) by {
            assert forall|j: int| 0 <= j < t.len() implies is_digit(#[trigger] t[j]) by {
                if j < t.len() - 1 {
                    assert(t[j] == s.take(i - from)[j]);
                }
            }
        }
        if d > bound || acc > (bound - d) / 10 {
            assert(digits_value(t) > bound) by (nonlinear_arith)
                requires
                    digits_value(t) == 10 * acc + d,
                    d > bound || acc > (bound - d) / 10,
                    acc >= 0,
            {
            }
            proof {
                if all_digits(s) {
                    lemma_digits_value_grows(s, i + 1 - from);
                    assert(s.take(i + 1 - from) == t);
                }
            }
            return None;
        }
        acc = acc * 10 + d;
        i = i + 1;
    }
    assert(s.take(cs.len() - from) =~= s);
    Some(acc)
}

/// The signed 64-bit integer that `cs` writes, as `str::parse::<i64>` reads it.
pub fn parse_i64(cs: &Vec<char>) -> (r: Option<i64>)
    ensures
        r is Some <==> (integer_of(cs@, true) is Some && i64::MIN <= integer_of(cs@, true)->0
            <= i64::MAX),
        r is Some ==> r->0 == integer_of(cs@, true)->0,
{
    assert(cs@.skip(0) =~= cs@);
    if cs.len() > 0 && cs[0] == '-' {
        assert(!is_digit(cs@[0]));
        match magnitude(cs, 1, 0x8000_0000_0000_0000) {
            Some(m) => {
                if m == 0x8000_0000_0000_0000 {
                    Some(i64::MIN)
                } else {
                    Some(-(m as i64))
                }
            },
            None => None,
        }
    } else if cs.len() > 0 && cs[0] == '+' {
        assert(!is_digit(cs@[0]));
        match magnitude(cs, 1, i64::MAX as u64) {
            Some(m) => Some(m as i64),
            None => None,
        }
    } else {
        match magnitude(cs, 0, i64::MAX as u64) {
            Some(m) => Some(m as i64),
            None => {
                proof {
                    if integer_of(cs@, true) is Some {
                        lemma_digits_value_nonneg(cs@);
                    }
                }
                None
            },
        }
    }
}

/// The unsigned 32-bit integer that `cs` writes, as `str::parse::<u32>` reads it.
pub fn parse_u32(cs: &Vec<char>) -> (r: Option<u32>)
    ensures
        r is Some <==> (integer_of(cs@, false) is Some && integer_of(cs@, false)->0 <= u32::MAX),
        r is Some ==> r->0 == integer_of(cs@, false)->0,
{
    assert(cs@.skip(0) =~= cs@);
    if cs.len() > 0 && cs[0] == '+' {
        assert(!is_digit(cs@[0]));
        match magnitude(cs, 1, u32::MAX as u64) {
            Some(m) => Some(m as u32),
            None => None,
        }
    } else {
        if cs.len() > 0 && cs[0] == '-' {
            assert(!is_digit(cs@[0]));
        }
        match magnitude(cs, 0, u32::MAX as u64) {
            Some(m) => Some(m as u32),
            None => None,
        }
    }
}

pub open spec fn digit_char(d: int) -> char {
    (('0' as int) + d) as char
}

/// The decimal digits of `n`, most significant first, without leading zeros.
pub open spec fn digits_of(n: nat) -> Seq<char>
    decreases n,
{
    if n < 10 {
        seq![digit_char(n as int)]
    } else {
        digits_of(n / 10).push(digit_char((n % 10) as int))
    }
}

/// The decimal text of `n`, with a `-` in front where it is negative.
pub open spec fn decimal_of(n: int) -> Seq<char> {
    if n < 0 {
        seq!['-'] + digits_of((-n) as nat)
    } else {
        digits_of(n as nat)
    }
}

pub proof fn lemma_digits_of(n: nat)
    ensures
        digits_of(n).len() > 0,
        all_digits(digits_of(n)),
        digits_value(digits_of(n)) == n,
    decreases n,
{
    assert(digit_value(digit_char((n % 10) as int)) == n % 10);
    if n < 10 {
        assert(digits_of(n).drop_last() =~= Seq::<char>::empty());
        assert(digits_value(Seq::<char>::empty()) == 0);
        assert(digits_of(n).last() == digit_char(n as int));
        assert(digits_value(digits_of(n)) == 10 * digits_value(digits_of(n).drop_last()) + digit_value(digits_of(n).last()));
    } else {
        lemma_digits_of(n / 10);
        let s = digits_of(n);
        assert(s.drop_last() =~= digits_of(n / 10));
        assert(10 * (n / 10) + n % 10 == n);
        assert(s.last() == digit_char((n % 10) as int));
        assert(digits_value(s) == 10 * digits_value(s.drop_last()) + digit_value(s.last()));
        assert forall|i: int| 0 <= i < s.len() implies is_digit(#[trigger] s[i]) by {
            if i < s.len() - 1 {
                assert(s[i] == digits_of(n / 10)[i]);
            }
        }
    }
}

/// The decimal text of `n` is read back as `n`.
pub proof fn lemma_decimal_round_trip(n: int, signed: bool)
    requires
        signed || n >= 0,
    ensures
        integer_of(decimal_of(n), signed) == Some(n),
{
    if n < 0 {
        let m = (-n) as nat;
        lemma_digits_of(m);
        let s = decimal_of(n);
        assert(s.skip(1) =~= digits_of(m));
        assert(!is_digit(s[0]));
    } else {
        lemma_digits_of(n as nat);
        let s = decimal_of(n);
        assert(is_digit(s[0]));
    }
}

/// Appends the decimal digits of `n` to `s`.
pub fn push_digits(s: &mut String, n: u64)
    ensures
        final(s)@ == old(s)@ + digits_of(n as nat),
    decreases n,
{
    if n >= 10 {
        push_digits(s, n / 10);
    }
    push_char(s, ((n % 10) as u8 + 48u8) as char);
    assert(((n % 10) as u8 + 48u8) as char == digit_char((n % 10) as int));
    if n >= 10 {
        assert(old(s)@ + digits_of(n as nat) =~= old(s)@ + digits_of((n / 10) as nat) + seq![digit_char((n % 10) as int)]);
    } else {
        assert(digits_of(n as nat) =~= seq![digit_char((n % 10) as int)]);
    }
}

} // verus!
