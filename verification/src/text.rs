//! Decimal text as the adapter reads it: trimming and unsigned parsing with
//! the standard library's rules.
use vstd::prelude::*;

use vstd::utf8::encode_utf8;

verus! {

/// Unicode `White_Space` (what `char::is_whitespace` accepts).
pub open spec fn is_white_space(c: char) -> bool {
    let u = c as u32;
    ||| 0x9 <= u <= 0xd
    ||| u == 0x20
    ||| u == 0x85
    ||| u == 0xa0
    ||| u == 0x1680
    ||| 0x2000 <= u <= 0x200a
    ||| u == 0x2028
    ||| u == 0x2029
    ||| u == 0x202f
    ||| u == 0x205f
    ||| u == 0x3000
}

/// `s` without its leading white space.
pub open spec fn trim_start_ws(s: Seq<char>) -> Seq<char>
    decreases s.len(),
{
    if s.len() > 0 && is_white_space(s[0]) {
        trim_start_ws(s.drop_first())
    } else {
        s
    }
}

/// `s` without its trailing white space.
pub open spec fn trim_end_ws(s: Seq<char>) -> Seq<char>
    decreases s.len(),
{
    if s.len() > 0 && is_white_space(s.last()) {
        trim_end_ws(s.drop_last())
    } else {
        s
    }
}

/// `s` without leading and trailing white space.
pub open spec fn trim_ws(s: Seq<char>) -> Seq<char> {
    trim_end_ws(trim_start_ws(s))
}

/// `str::trim`: the slice without leading and trailing white space.
#[verifier::external_body]
pub fn str_trim(s: &str) -> (r: &str)
    ensures
        r@ == trim_ws(s@),
{
    s.trim()
}

pub open spec fn is_digit(b: u8) -> bool {
    48 <= b <= 57
}

/// The value of a string of ASCII decimal digits.
pub open spec fn digits_value(s: Seq<u8>) -> nat
    decreases s.len(),
{
    if s.len() == 0 {
        0
    } else {
        digits_value(s.drop_last()) * 10 + (s.last() - 48) as nat
    }
}

/// The digits of an unsigned number: an optional leading `+` removed.
pub open spec fn unsigned_digits(s: Seq<u8>) -> Seq<u8> {
    if s.len() >= 1 && s[0] == 43 {
        s.drop_first()
    } else {
        s
    }
}

/// What `str::parse` gives for an unsigned integer type whose largest value
/// is `max`: an optional `+`, then one or more decimal digits, the value at
/// most `max`.
pub open spec fn spec_parse_unsigned(s: Seq<u8>, max: nat) -> Option<nat> {
    let d = unsigned_digits(s);
    if s.len() == 0 || d.len() == 0 || (s.len() == 1 && s[0] == 45) {
        None
    } else if (forall|i: int| 0 <= i < d.len() ==> is_digit(#[trigger] d[i])) && digits_value(d) <= max {
        Some(digits_value(d))
    } else {
        None
    }
}

/// Parses an unsigned decimal number no greater than `max`, as `str::parse`
/// does for the unsigned type whose largest value is `max`.
pub fn parse_unsigned(s: &[u8], max: u64) -> (r: Option<u64>)
    requires
        max < 0x1_0000_0000,
    ensures
        match spec_parse_unsigned(s@, max as nat) {
            Some(v) => r == Some(v as u64),
            None => r is None,
        },
{
    let r = parse_unsigned_in(s, 0, s.len(), max);
    assert(s@.subrange(0, s@.len() as int) =~= s@);
    r
}

/// Parses the bytes `s[lo..hi]` as [`parse_unsigned`] does.
pub fn parse_unsigned_in(s: &[u8], lo: usize, hi: usize, max: u64) -> (r: Option<u64>)
    requires
        lo <= hi <= s@.len(),
        max < 0x1_0000_0000,
    ensures
        match spec_parse_unsigned(s@.subrange(lo as int, hi as int), max as nat) {
            Some(v) => r == Some(v as u64),
            None => r is None,
        },
{
    let ghost w = s@.subrange(lo as int, hi as int);
    if hi == lo {
        return None;
    }
    if hi - lo == 1 && s[lo] == 45 {
        assert(w[0] == 45);
        return None;
    }
    let start: usize = if s[lo] == 43 {
        lo + 1
    } else {
        lo
    };
    assert(w[0] == s@[lo as int]);
    let ghost d = unsigned_digits(w);
    assert(d =~= s@.subrange(start as int, hi as int));
    if start == hi {
        return None;
    }
    let cap: u64 = max + 1;
    let mut acc: u64 = 0;
    let mut i: usize = start;
    while i < hi
        invariant
            lo <= start <= i <= hi <= s@.len(),
            w == s@.subrange(lo as int, hi as int),
            d == s@.subrange(start as int, hi as int),
            d == unsigned_digits(w),
            d.len() > 0,
            w.len() > 0,
            !(w.len() == 1 && w[0] == 45),
            cap == max + 1,
            cap <= 0x1_0000_0000,
            forall|j: int| start <= j < i ==> is_digit(#[trigger] s@[j]),
            acc == (if digits_value(s@.subrange(start as int, i as int)) < cap {
                digits_value(s@.subrange(start as int, i as int))
            } else {
                cap as nat
            }),
        decreases hi - i,
    {
        let b = s[i];
        if b < 48 || b > 57 {
            assert(d[i - start] == b);
            assert(!is_digit(d[i - start]));
            assert(!(forall|k: int| 0 <= k < d.len() ==> is_digit(#[trigger] d[k])));
            return None;
        }
        let ghost prev = s@.subrange(start as int, i as int);
        let ghost next = s@.subrange(start as int, i + 1);
        assert(next.drop_last() =~= prev);
        assert(next.last() == b);
        let ghost dv = digits_value(prev);
        let t: u64 = acc * 10 + (b - 48) as u64;
        proof {
            assert(digits_value(next) == dv * 10 + (b - 48) as nat);
            if dv >= cap {
                assert(digits_value(next) >= cap) by (nonlinear_arith)
                    requires
                        digits_value(next) == dv * 10 + (b - 48) as nat,
                        dv >= cap,
                ;
            }
        }
        acc = if t < cap {
            t
        } else {
            cap
        };
        i = i + 1;
    }
    assert forall|j: int| 0 <= j < d.len() implies is_digit(#[trigger] d[j]) by {
        assert(d[j] == s@[j + start]);
    }
    if acc > max {
        None
    } else {
        Some(acc)
    }
}

/// Two bytes hold at most two decimal digits.
pub proof fn lemma_two_bytes_at_most_99(w: Seq<u8>, max: nat)
    requires
        w.len() == 2,
    ensures
        spec_parse_unsigned(w, max) matches Some(v) ==> v <= 99,
{
    let d = unsigned_digits(w);
    if spec_parse_unsigned(w, max) is Some {
        assert(is_digit(d[0]));
        if d.len() == 2 {
            assert(is_digit(d[1]));
            assert(d.drop_last().drop_last() =~= Seq::<u8>::empty());
            reveal_with_fuel(digits_value, 3);
        } else {
            assert(d.len() == 1);
            assert(d.drop_last() =~= Seq::<u8>::empty());
            reveal_with_fuel(digits_value, 2);
        }
    }
}

/// A string's UTF-8 encoding has at least as many bytes as it has characters.
pub proof fn lemma_utf8_len_at_least_chars(s: Seq<char>)
    ensures
        encode_utf8(s).len() >= s.len(),
    decreases s.len(),
{
    if s.len() > 0 {
        lemma_utf8_len_at_least_chars(s.drop_first());
    }
}

} // verus!
