//! Small verified text utilities used by form validation: stripping
//! whitespace and parsing unsigned decimal numbers the way std's
//! integer parser reads them.

use vstd::prelude::*;

verus! {

/// Whether std counts `c` as whitespace; the outcome is a function of
/// the character alone.
pub uninterp spec fn is_whitespace_char(c: char) -> bool;

/// Relies on char::is_whitespace: a pure predicate on the character.
pub assume_specification[ char::is_whitespace ](c: char) -> (r: bool)
    ensures
        r == is_whitespace_char(c),
;

/// Relies on String::push: appends exactly the one character.
#[verifier::external_body]
fn push_char(s: &mut String, c: char)
    ensures
        final(s)@ == old(s)@.push(c),
{
    s.push(c);
}

/// `s` with every whitespace character removed.
pub open spec fn stripped(s: Seq<char>) -> Seq<char> {
    s.filter(|c: char| !is_whitespace_char(c))
}

/// Remove all whitespace characters from `s`.
pub fn strip_whitespace(s: &str) -> (r: String)
    ensures
        r@ == stripped(s@),
{
    let mut out = String::new();
    let n = s.unicode_len();
    proof {
        reveal(Seq::filter);
        assert(s@.take(0) =~= Seq::<char>::empty());
    }
    for i in 0..n
        invariant
            n == s@.len(),
            out@ == stripped(s@.take(i as int)),
    {
        let c = s.get_char(i);
        proof {
            reveal(Seq::filter);
            assert(s@.take(i + 1).drop_last() =~= s@.take(i as int));
            assert(s@.take(i + 1).last() == s@[i as int]);
        }
        if !c.is_whitespace() {
            push_char(&mut out, c);
        }
    }
    proof {
        assert(s@.take(n as int) =~= s@);
    }
    out
}

/// A decimal digit.
pub open spec fn is_digit_char(c: char) -> bool {
    48 <= c as u32 <= 57
}

/// The numeric value of a digit character.
pub open spec fn digit_value(c: char) -> int {
    c as u32 - 48
}

/// Every character is a decimal digit.
pub open spec fn all_digits(s: Seq<char>) -> bool {
    forall|i: int| 0 <= i < s.len() ==> is_digit_char(#[trigger] s[i])
}

/// The value of a digit string read in base ten.
pub open spec fn digits_value(s: Seq<char>) -> int
    decreases s.len(),
{
    if s.len() == 0 {
        0
    } else {
        digits_value(s.drop_last()) * 10 + digit_value(s.last())
    }
}

/// The digits of a number written with an optional leading plus sign,
/// as std's unsigned parser accepts it.
pub open spec fn numeric_part(s: Seq<char>) -> Seq<char> {
    if s.len() > 0 && s[0] == '+' {
        s.drop_first()
    } else {
        s
    }
}

/// The strings std parses as a u64: an optional leading plus sign, then
/// at least one decimal digit, with a value that fits.
pub open spec fn parses_as_u64(s: Seq<char>) -> bool {
    let d = numeric_part(s);
    d.len() > 0 && all_digits(d) && digits_value(d) <= u64::MAX
}

/// A digit string's value is never negative.
proof fn lemma_digits_value_nonneg(s: Seq<char>)
    requires
        all_digits(s),
    ensures
        digits_value(s) >= 0,
    decreases s.len(),
{
    if s.len() > 0 {
        let dl = s.drop_last();
        assert(all_digits(dl)) by {
            assert(forall|i: int| 0 <= i < dl.len() ==> #[trigger] dl[i] == s[i]);
        }
        lemma_digits_value_nonneg(dl);
    }
}

/// A prefix of a digit string never exceeds the whole string's value.
proof fn lemma_digits_value_prefix(s: Seq<char>, k: int)
    requires
        all_digits(s),
        0 <= k <= s.len(),
    ensures
        digits_value(s.take(k)) <= digits_value(s),
    decreases s.len(),
{
    if k < s.len() {
        let dl = s.drop_last();
        assert(all_digits(dl)) by {
            assert(forall|i: int| 0 <= i < dl.len() ==> #[trigger] dl[i] == s[i]);
        }
        assert(s.take(k) =~= dl.take(k));
        lemma_digits_value_prefix(dl, k);
        lemma_digits_value_nonneg(dl);
        assert(is_digit_char(s[s.len() - 1]));
        assert(digit_value(s.last()) >= 0);
        assert(digits_value(s) == digits_value(dl) * 10 + digit_value(s.last()));
    } else {
        assert(s.take(k) =~= s);
    }
}

/// Parse a u64 exactly as std does: an optional leading plus sign, at
/// least one digit, nothing else, and no overflow.
pub fn parse_u64(s: &str) -> (r: Option<u64>)
    ensures
        r is Some <==> parses_as_u64(s@),
        r matches Some(v) ==> v == digits_value(numeric_part(s@)),
{
    let n = s.unicode_len();
    if n == 0 {
        return None;
    }
    let start: usize = if s.get_char(0) == '+' {
        1
    } else {
        0
    };
    let ghost d = numeric_part(s@);
    proof {
        if start == 1 {
            assert(d =~= s@.skip(1));
        } else {
            assert(d =~= s@.skip(0));
        }
    }
    if start == n {
        return None;
    }
    let mut value: u64 = 0;
    let mut i: usize = start;
    proof {
        assert(d.take(0) =~= Seq::<char>::empty());
    }
    while i < n
        invariant
            start <= i <= n,
            start <= 1,
            n == s@.len(),
            d == numeric_part(s@),
            d =~= s@.skip(start as int),
            d.len() == n - start,
            all_digits(d.take(i - start)),
            value == digits_value(d.take(i - start)),
        decreases n - i,
    {
        let c = s.get_char(i);
        proof {
            assert(d[i - start] == s@[i as int]);
        }
        let u = c as u32;
        if u < 48 || u > 57 {
            proof {
                assert(!is_digit_char(d[i - start]));
            }
            return None;
        }
        let dig = (u - 48) as u64;
        let scaled = match value.checked_mul(10) {
            Some(x) => x,
            None => {
                proof {
                    lemma_overflow_means_no_parse(d, i - start, value, dig);
                }
                return None;
            },
        };
        let next = match scaled.checked_add(dig) {
            Some(x) => x,
            None => {
                proof {
                    lemma_overflow_means_no_parse(d, i - start, value, dig);
                }
                return None;
            },
        };
        proof {
            assert(d.take(i - start + 1).drop_last() =~= d.take(i - start));
            assert(d.take(i - start + 1).last() == d[i - start]);
        }
        value = next;
        i = i + 1;
    }
    proof {
        assert(d.take(n - start) =~= d);
    }
    Some(value)
}

/// The strings std parses as a u8: like a u64, but the value must fit
/// in one byte.
pub open spec fn parses_as_u8(s: Seq<char>) -> bool {
    let d = numeric_part(s);
    d.len() > 0 && all_digits(d) && digits_value(d) <= 255
}

/// Parse a u8 exactly as std does.
pub fn parse_u8(s: &str) -> (r: Option<u8>)
    ensures
        r is Some <==> parses_as_u8(s@),
        r matches Some(v) ==> v == digits_value(numeric_part(s@)),
{
    match parse_u64(s) {
        None => None,
        Some(v) => if v <= 255 {
            Some(v as u8)
        } else {
            None
        },
    }
}

/// If one more digit pushes the running value past u64::MAX, the whole
/// string cannot parse: either a later character is not a digit, or the
/// full value is at least the overflowing prefix.
proof fn lemma_overflow_means_no_parse(d: Seq<char>, k: int, value: u64, dig: u64)
    requires
        0 <= k < d.len(),
        all_digits(d.take(k)),
        is_digit_char(d[k]),
        dig == digit_value(d[k]),
        value == digits_value(d.take(k)),
        value * 10 + dig > u64::MAX,
    ensures
        !(all_digits(d) && digits_value(d) <= u64::MAX),
{
    if all_digits(d) {
        assert(d.take(k + 1).drop_last() =~= d.take(k));
        assert(d.take(k + 1).last() == d[k]);
        assert(digits_value(d.take(k + 1)) == value * 10 + dig);
        assert(all_digits(d.take(k + 1))) by {
            assert(forall|i: int|
                0 <= i < k + 1 ==> #[trigger] d.take(k + 1)[i] == d[i]);
        }
        lemma_digits_value_prefix(d, k + 1);
    }
}

} // verus!
