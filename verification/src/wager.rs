//! Reading a bet from a line of client input.
//!
//! A bet is written as an optional `+` and one or more decimal digits, with
//! any amount of ASCII white space before and after it, and must fit in a
//! `u32`. Everything else is not a bet.

use vstd::prelude::*;

verus! {

/// ASCII white space: the space and the controls from tab to carriage return.
pub open spec fn is_blank(b: u8) -> bool {
    b == 32 || (9 <= b && b <= 13)
}

/// An ASCII decimal digit.
pub open spec fn is_digit(b: u8) -> bool {
    48 <= b && b <= 57
}

/// `s` without its leading white space.
pub open spec fn trim_start(s: Seq<u8>) -> Seq<u8>
    decreases s.len(),
{
    if s.len() > 0 && is_blank(s[0]) {
        trim_start(s.drop_first())
    } else {
        s
    }
}

/// `s` without its trailing white space.
pub open spec fn trim_end(s: Seq<u8>) -> Seq<u8>
    decreases s.len(),
{
    if s.len() > 0 && is_blank(s.last()) {
        trim_end(s.drop_last())
    } else {
        s
    }
}

/// `s` without the white space at either end.
pub open spec fn trimmed(s: Seq<u8>) -> Seq<u8> {
    trim_end(trim_start(s))
}

/// `s` without one leading plus sign.
pub open spec fn unsigned_part(s: Seq<u8>) -> Seq<u8> {
    if s.len() > 0 && s[0] == 43 {
        s.drop_first()
    } else {
        s
    }
}

/// Whether every byte of `s` is a decimal digit.
pub open spec fn all_digits(s: Seq<u8>) -> bool {
    forall|i: int| 0 <= i < s.len() ==> is_digit(#[trigger] s[i])
}

/// The number a byte stands for as a decimal digit; zero for any other byte.
pub open spec fn digit_value(b: u8) -> nat {
    if is_digit(b) {
        (b - 48) as nat
    } else {
        0
    }
}

/// The number that a run of decimal digits writes.
pub open spec fn digits_value(s: Seq<u8>) -> nat
    decreases s.len(),
{
    if s.len() == 0 {
        0
    } else {
        digits_value(s.drop_last()) * 10 + digit_value(s.last())
    }
}

/// The bet that a line of input holds, if it holds one.
pub open spec fn bet_of(line: Seq<u8>) -> Option<u32> {
    let digits = unsigned_part(trimmed(line));
    if digits.len() > 0 && all_digits(digits) && digits_value(digits) <= u32::MAX {
        Some(digits_value(digits) as u32)
    } else {
        None
    }
}

/// Skipping `lo` blank bytes that end before a solid one is what
/// `trim_start` does.
proof fn lemma_trim_start(s: Seq<u8>, lo: int)
    requires
        0 <= lo <= s.len(),
        forall|k: int| 0 <= k < lo ==> is_blank(#[trigger] s[k]),
        lo == s.len() || !is_blank(s[lo]),
    ensures
        trim_start(s) == s.subrange(lo, s.len() as int),
    decreases lo,
{
    if lo > 0 {
        let rest = s.drop_first();
        assert forall|k: int| 0 <= k < lo - 1 implies is_blank(#[trigger] rest[k]) by {
            assert(rest[k] == s[k + 1]);
        }
        lemma_trim_start(rest, lo - 1);
    }
}

/// Dropping the blank bytes from `hi` on, after a solid one, is what
/// `trim_end` does.
proof fn lemma_trim_end(s: Seq<u8>, hi: int)
    requires
        0 <= hi <= s.len(),
        forall|k: int| hi <= k < s.len() ==> is_blank(#[trigger] s[k]),
        hi == 0 || !is_blank(s[hi - 1]),
    ensures
        trim_end(s) == s.subrange(0, hi),
    decreases s.len() - hi,
{
    if hi < s.len() {
        let rest = s.drop_last();
        assert forall|k: int| hi <= k < rest.len() implies is_blank(#[trigger] rest[k]) by {
            assert(rest[k] == s[k]);
        }
        lemma_trim_end(rest, hi);
    }
}

/// A run of digits writes at least what any prefix of it writes.
proof fn lemma_prefix_value(s: Seq<u8>, k: int)
    requires
        0 <= k <= s.len(),
    ensures
        digits_value(s.subrange(0, k)) <= digits_value(s),
    decreases s.len() - k,
{
    if k == s.len() {
        assert(s.subrange(0, k) =~= s);
    } else {
        lemma_prefix_value(s.drop_last(), k);
        assert(s.drop_last().subrange(0, k) =~= s.subrange(0, k));
    }
}

/// Reads the bet that a line of input holds.
pub fn parse_bet(line: &[u8]) -> (bet: Option<u32>)
    ensures
        bet == bet_of(line@),
{
    let n = line.len();
    let mut lo: usize = 0;
    while lo < n && (line[lo] == 32 || (9 <= line[lo] && line[lo] <= 13))
        invariant
            n == line@.len(),
            lo <= n,
            forall|k: int| 0 <= k < lo ==> is_blank(#[trigger] line@[k]),
        decreases n - lo,
    {
        lo += 1;
    }
    let mut hi: usize = n;
    while hi > lo && (line[hi - 1] == 32 || (9 <= line[hi - 1] && line[hi - 1] <= 13))
        invariant
            n == line@.len(),
            lo <= hi <= n,
            forall|k: int| hi <= k < n ==> is_blank(#[trigger] line@[k]),
        decreases hi,
    {
        hi -= 1;
    }
    proof {
        lemma_trim_start(line@, lo as int);
        let tail = line@.subrange(lo as int, n as int);
        assert forall|k: int| hi - lo <= k < tail.len() implies is_blank(#[trigger] tail[k]) by {
            assert(tail[k] == line@[k + lo]);
        }
        lemma_trim_end(tail, hi - lo);
        assert(trimmed(line@) =~= line@.subrange(lo as int, hi as int));
    }
    let mut start: usize = lo;
    if start < hi && line[start] == 43 {
        start += 1;
    }
    let ghost digits = line@.subrange(start as int, hi as int);
    if start == hi {
        return None;
    }
    let mut total: u64 = 0;
    let mut i: usize = start;
    while i < hi
        invariant
            n == line@.len(),
            start <= i <= hi <= n,
            digits == line@.subrange(start as int, hi as int),
            digits == unsigned_part(trimmed(line@)),
            forall|k: int| 0 <= k < i - start ==> is_digit(#[trigger] digits[k]),
            total == digits_value(digits.subrange(0, i - start)),
            total <= u32::MAX,
        decreases hi - i,
    {
        let b = line[i];
        if b < 48 || b > 57 {
            assert(!is_digit(digits[i - start]));
            return None;
        }
        assert(digits.subrange(0, i - start + 1).drop_last() =~= digits.subrange(0, i - start));
        total = total * 10 + (b - 48) as u64;
        if total > 0xffff_ffff {
            proof {
                lemma_prefix_value(digits, i - start + 1);
            }
            return None;
        }
        i += 1;
    }
    assert(digits.subrange(0, hi - start) =~= digits);
    Some(total as u32)
}

} // verus!
