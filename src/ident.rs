//! Identifiers: the store keys records by an `i64`, the wire carries the
//! decimal rendering of that integer.
use vstd::prelude::*;
use vstd::utf8::is_ascii_chars;

use crate::error::ServiceError;

verus! {

pub open spec fn is_digit(c: char) -> bool {
    '0' <= c && c <= '9'
}

pub open spec fn digit_value(c: char) -> int {
    c as int - '0' as int
}

/// The character of a decimal digit `d` (0 to 9).
pub open spec fn digit_char(d: int) -> char {
    if d == 0 { '0' }
    else if d == 1 { '1' }
    else if d == 2 { '2' }
    else if d == 3 { '3' }
    else if d == 4 { '4' }
    else if d == 5 { '5' }
    else if d == 6 { '6' }
    else if d == 7 { '7' }
    else if d == 8 { '8' }
    else { '9' }
}

pub open spec fn all_digits(s: Seq<char>) -> bool {
    forall|i: int| 0 <= i < s.len() ==> is_digit(#[trigger] s[i])
}

/// The value of a run of decimal digits, most significant first.
pub open spec fn digits_value(s: Seq<char>) -> int
    decreases s.len(),
{
    if s.len() == 0 {
        0
    } else {
        digits_value(s.drop_last()) * 10 + digit_value(s.last())
    }
}

/// The integer a text denotes: an optional `+` or `-`, then one or more
/// decimal digits, nothing else.
pub open spec fn decimal_value(s: Seq<char>) -> Option<int> {
    if s.len() > 0 && (s[0] == '-' || s[0] == '+') {
        let rest = s.subrange(1, s.len() as int);
        if rest.len() > 0 && all_digits(rest) {
            if s[0] == '-' {
                Some(-digits_value(rest))
            } else {
                Some(digits_value(rest))
            }
        } else {
            None
        }
    } else if s.len() > 0 && all_digits(s) {
        Some(digits_value(s))
    } else {
        None
    }
}

/// The identifier a wire text names, if it names one of the store's domain.
pub open spec fn identifier_of(s: Seq<char>) -> Option<i64> {
    match decimal_value(s) {
        Some(v) => if i64::MIN <= v <= i64::MAX {
            Some(v as i64)
        } else {
            None
        },
        None => None,
    }
}

/// The shortest decimal digits of `n`.
pub open spec fn digits_of(n: nat) -> Seq<char>
    decreases n,
{
    if n < 10 {
        seq![digit_char(n as int)]
    } else {
        digits_of(n / 10).push(digit_char((n % 10) as int))
    }
}

/// The decimal rendering of `v`: a `-` for negative values, then its digits.
pub open spec fn decimal_of(v: int) -> Seq<char> {
    if v < 0 {
        seq!['-'] + digits_of((-v) as nat)
    } else {
        digits_of(v as nat)
    }
}

fn digit_text(d: u64) -> (r: &'static str)
    requires
        d < 10,
    ensures
        r@ == seq![digit_char(d as int)],
{
    proof {
        reveal_strlit("0");
        reveal_strlit("1");
        reveal_strlit("2");
        reveal_strlit("3");
        reveal_strlit("4");
        reveal_strlit("5");
        reveal_strlit("6");
        reveal_strlit("7");
        reveal_strlit("8");
        reveal_strlit("9");
    }
    let r = if d == 0 { "0" }
    else if d == 1 { "1" }
    else if d == 2 { "2" }
    else if d == 3 { "3" }
    else if d == 4 { "4" }
    else if d == 5 { "5" }
    else if d == 6 { "6" }
    else if d == 7 { "7" }
    else if d == 8 { "8" }
    else { "9" };
    assert(r@ =~= seq![digit_char(d as int)]);
    r
}

fn append_digits(s: &mut String, n: u64)
    ensures
        final(s)@ == old(s)@ + digits_of(n as nat),
    decreases n,
{
    if n >= 10 {
        append_digits(s, n / 10);
    }
    s.append(digit_text(n % 10));
    assert(final(s)@ =~= old(s)@ + digits_of(n as nat));
}

/// Renders an identifier as its decimal text.
pub fn render_identifier(id: i64) -> (r: String)
    ensures
        r@ == decimal_of(id as int),
{
    let mut s = String::new();
    if id < 0 {
        proof {
            reveal_strlit("-");
        }
        s.append("-");
        let m: u64 = (-(id as i128)) as u64;
        append_digits(&mut s, m);
        assert(s@ =~= decimal_of(id as int));
    } else {
        append_digits(&mut s, id as u64);
        assert(s@ =~= decimal_of(id as int));
    }
    s
}

proof fn lemma_digits_value_nonneg(s: Seq<char>)
    requires
        all_digits(s),
    ensures
        digits_value(s) >= 0,
    decreases s.len(),
{
    if s.len() > 0 {
        assert(is_digit(s[s.len() - 1]));
        lemma_digits_value_nonneg(s.drop_last());
    }
}

proof fn lemma_digits_value_prefix(s: Seq<char>, k: int)
    requires
        all_digits(s),
        0 <= k <= s.len(),
    ensures
        digits_value(s.subrange(0, k)) <= digits_value(s),
    decreases s.len(),
{
    if k < s.len() {
        let t = s.drop_last();
        assert(t.subrange(0, k) =~= s.subrange(0, k));
        assert(is_digit(s[s.len() - 1]));
        lemma_digits_value_prefix(t, k);
        lemma_digits_value_nonneg(t);
    } else {
        assert(s.subrange(0, k) =~= s);
    }
}

/// Parses the decimal text of an identifier: an optional sign and one or more
/// digits whose value fits in an `i64`.
pub fn parse_identifier(s: &str) -> (r: Result<i64, ServiceError>)
    ensures
        match identifier_of(s@) {
            Some(v) => r == Ok::<i64, ServiceError>(v),
            None => r == Err::<i64, ServiceError>(ServiceError::InvalidArgument),
        },
{
    broadcast use vstd::string::is_ascii_spec_bytes;
    if !s.is_ascii() {
        proof {
            assert(!is_ascii_chars(s@));
            let i = choose|i: int| 0 <= i < s@.len() && !('\0' <= #[trigger] s@[i] <= '\u{7f}');
            if s@.len() > 0 && (s@[0] == '-' || s@[0] == '+') {
                if i > 0 {
                    assert(s@.subrange(1, s@.len() as int)[i - 1] == s@[i]);
                }
            }
        }
        return Err(ServiceError::InvalidArgument);
    }
    let bytes = s.as_bytes();
    let n = bytes.len();
    proof {
        assert(n == s@.len());
        assert forall|i: int| 0 <= i < n implies (#[trigger] bytes@[i]) as int == s@[i] as int by {
            assert(s@[i] as u8 == bytes@[i]);
            assert('\0' <= s@[i] <= '\u{7f}');
        }
    }
    if n == 0 {
        return Err(ServiceError::InvalidArgument);
    }
    let negative = bytes[0] == 45u8;
    let start: usize = if bytes[0] == 45u8 || bytes[0] == 43u8 { 1 } else { 0 };
    if start == n {
        return Err(ServiceError::InvalidArgument);
    }
    assert(negative <==> s@[0] == '-');
    assert(start == 1 <==> (s@[0] == '-' || s@[0] == '+'));
    let ghost rest = s@.subrange(start as int, n as int);
    let mut acc: i128 = 0;
    let mut i: usize = start;
    while i < n
        invariant
            start <= i <= n,
            start == 0 || start == 1,
            start < n,
            start == 1 <==> (s@[0] == '-' || s@[0] == '+'),
            negative <==> s@[0] == '-',
            n == s@.len(),
            n == bytes@.len(),
            rest == s@.subrange(start as int, n as int),
            forall|j: int| 0 <= j < n ==> (#[trigger] bytes@[j]) as int == s@[j] as int,
            all_digits(s@.subrange(start as int, i as int)),
            acc == digits_value(s@.subrange(start as int, i as int)),
            0 <= acc <= 0x8000_0000_0000_0000,
        decreases n - i,
    {
        let b = bytes[i];
        let prefix = Ghost(s@.subrange(start as int, i as int));
        let next = Ghost(s@.subrange(start as int, i as int + 1));
        assert(next@.drop_last() =~= prefix@);
        assert(next@.last() == s@[i as int]);
        if b < 48u8 || b > 57u8 {
            proof {
                assert(!is_digit(s@[i as int]));
                assert(rest[i - start] == s@[i as int]);
                assert(!all_digits(rest));
                if start == 0 {
                    assert(rest =~= s@);
                } else {
                    assert(rest =~= s@.subrange(1, s@.len() as int));
                }
                assert(decimal_value(s@).is_none());
            }
            return Err(ServiceError::InvalidArgument);
        }
        let d = (b - 48u8) as i128;
        assert(all_digits(next@)) by {
            assert forall|j: int| 0 <= j < next@.len() implies is_digit(#[trigger] next@[j]) by {
                if j < prefix@.len() {
                    assert(next@[j] == prefix@[j]);
                }
            }
        }
        acc = acc * 10 + d;
        i = i + 1;
        if acc > 0x8000_0000_0000_0000 {
            proof {
                if all_digits(rest) {
                    assert(rest.subrange(0, i - start) =~= next@);
                    lemma_digits_value_prefix(rest, i - start);
                }
                if start == 0 {
                    assert(rest =~= s@);
                } else {
                    assert(rest =~= s@.subrange(1, s@.len() as int));
                }
                assert(decimal_value(s@).is_none() || decimal_value(s@).unwrap() > i64::MAX
                    || decimal_value(s@).unwrap() < i64::MIN);
            }
            return Err(ServiceError::InvalidArgument);
        }
    }
    assert(s@.subrange(start as int, n as int) =~= rest);
    if start == 0 {
        assert(rest =~= s@);
    }
    if negative {
        let v = -acc;
        Ok(v as i64)
    } else if acc > 0x7fff_ffff_ffff_ffff {
        Err(ServiceError::InvalidArgument)
    } else {
        Ok(acc as i64)
    }
}

proof fn lemma_digits_of(n: nat)
    ensures
        digits_of(n).len() >= 1,
        all_digits(digits_of(n)),
        digits_value(digits_of(n)) == n,
    decreases n,
{
    let d = (n % 10) as int;
    assert(is_digit(digit_char(d)) && digit_value(digit_char(d)) == d);
    if n >= 10 {
        lemma_digits_of(n / 10);
        let t = digits_of(n / 10);
        assert(digits_of(n).drop_last() =~= t);
        assert forall|i: int| 0 <= i < digits_of(n).len() implies is_digit(#[trigger] digits_of(n)[i]) by {
            if i < t.len() {
                assert(digits_of(n)[i] == t[i]);
            }
        }
        assert(digits_of(n).last() == digit_char(d));
        assert(digits_value(digits_of(n)) == (n / 10) * 10 + d);
        assert((n / 10) * 10 + n % 10 == n) by (nonlinear_arith);
    } else {
        assert(digits_of(n).drop_last() =~= Seq::<char>::empty());
        assert(digits_value(Seq::<char>::empty()) == 0);
        assert(n % 10 == n);
    }
}

/// Reading back the rendering of an identifier gives that identifier: the wire
/// form loses nothing.
pub proof fn lemma_identifier_round_trip(id: i64)
    ensures
        identifier_of(decimal_of(id as int)) == Some(id),
{
    let s = decimal_of(id as int);
    if id < 0 {
        let m = (-(id as int)) as nat;
        lemma_digits_of(m);
        assert(s.subrange(1, s.len() as int) =~= digits_of(m));
    } else {
        lemma_digits_of(id as nat);
        assert(is_digit(s[0]));
    }
}

} // verus!
