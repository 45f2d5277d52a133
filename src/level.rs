//! Backlight levels as the kernel writes them: an unsigned decimal integer
//! surrounded by whitespace.
use crate::fraction::BrightnessError;
use vstd::prelude::*;

verus! {

/// ASCII whitespace: tab, line feed, vertical tab, form feed, carriage
/// return and space.
pub open spec fn is_space(b: u8) -> bool {
    b == 32 || (9 <= b && b <= 13)
}

/// An ASCII decimal digit.
pub open spec fn is_digit(b: u8) -> bool {
    48 <= b && b <= 57
}

/// `s` without its leading whitespace.
pub open spec fn trim_start(s: Seq<u8>) -> Seq<u8>
    decreases s.len(),
{
    if s.len() > 0 && is_space(s[0]) {
        trim_start(s.subrange(1, s.len() as int))
    } else {
        s
    }
}

/// `s` without its trailing whitespace.
pub open spec fn trim_end(s: Seq<u8>) -> Seq<u8>
    decreases s.len(),
{
    if s.len() > 0 && is_space(s[s.len() - 1]) {
        trim_end(s.subrange(0, s.len() - 1))
    } else {
        s
    }
}

/// `s` without leading and trailing whitespace.
pub open spec fn trim(s: Seq<u8>) -> Seq<u8> {
    trim_end(trim_start(s))
}

/// The digits of a trimmed number: an optional leading `+` is dropped.
pub open spec fn unsigned_digits(t: Seq<u8>) -> Seq<u8> {
    if t.len() > 0 && t[0] == 43 {
        t.subrange(1, t.len() as int)
    } else {
        t
    }
}

/// The value of a digit, zero for any other byte.
pub open spec fn digit_value(b: u8) -> nat {
    if is_digit(b) {
        (b - 48) as nat
    } else {
        0
    }
}

/// The value of a string of decimal digits, most significant first.
pub open spec fn digits_value(s: Seq<u8>) -> nat
    decreases s.len(),
{
    if s.len() == 0 {
        0
    } else {
        digits_value(s.subrange(0, s.len() - 1)) * 10 + digit_value(s[s.len() - 1])
    }
}

/// The level written in `text`: after trimming whitespace, an optional `+`
/// and then one or more decimal digits whose value fits in 64 bits.
pub open spec fn level_of(text: Seq<u8>) -> Option<nat> {
    let d = unsigned_digits(trim(text));
    if d.len() > 0 && (forall|k: int| 0 <= k < d.len() ==> is_digit(#[trigger] d[k]))
        && digits_value(d) <= u64::MAX {
        Some(digits_value(d))
    } else {
        None
    }
}

proof fn lemma_prefix_value(s: Seq<u8>, k: int)
    requires
        0 <= k <= s.len(),
    ensures
        digits_value(s.subrange(0, k)) <= digits_value(s),
    decreases s.len(),
{
    if k < s.len() {
        let p = s.subrange(0, s.len() - 1);
        assert(p.subrange(0, k) =~= s.subrange(0, k));
        lemma_prefix_value(p, k);
    } else {
        assert(s.subrange(0, k) =~= s);
    }
}

/// Reads a backlight level from the contents of its source.
///
/// Fails with `MalformedLevel` exactly when `level_of` finds no level.
pub fn parse_level(text: &[u8]) -> (r: Result<u64, BrightnessError>)
    ensures
        match level_of(text@) {
            Some(v) => r == Ok::<u64, BrightnessError>(v as u64),
            None => r == Err::<u64, BrightnessError>(BrightnessError::MalformedLevel),
        },
{
    let len = text.len();
    let ghost s = text@;
    let mut start: usize = 0;
    assert(s.subrange(0, len as int) =~= s);
    while start < len && (text[start] == 32 || (9 <= text[start] && text[start] <= 13))
        invariant
            len == s.len(),
            s == text@,
            start <= len,
            trim_start(s) == trim_start(s.subrange(start as int, len as int)),
        decreases len - start,
    {
        assert(s.subrange(start as int, len as int).subrange(1, len - start) =~= s.subrange(
            start + 1,
            len as int,
        ));
        start += 1;
    }
    let mut end: usize = len;
    while end > start && (text[end - 1] == 32 || (9 <= text[end - 1] && text[end - 1] <= 13))
        invariant
            len == s.len(),
            s == text@,
            start <= end <= len,
            trim_end(s.subrange(start as int, len as int)) == trim_end(
                s.subrange(start as int, end as int),
            ),
        decreases end - start,
    {
        assert(s.subrange(start as int, end as int).subrange(0, end - start - 1) =~= s.subrange(
            start as int,
            end - 1,
        ));
        end -= 1;
    }
    let ghost t = s.subrange(start as int, end as int);
    assert(trim(s) == t);
    let mut first: usize = start;
    if first < end && text[first] == 43 {
        first += 1;
    }
    let ghost d = s.subrange(first as int, end as int);
    assert(unsigned_digits(t) =~= d);
    if first == end {
        return Err(BrightnessError::MalformedLevel);
    }
    let mut acc: u64 = 0;
    let mut k: usize = first;
    while k < end
        invariant
            s == text@,
            first <= k <= end <= s.len(),
            d == s.subrange(first as int, end as int),
            unsigned_digits(trim(s)) == d,
            acc as nat == digits_value(s.subrange(first as int, k as int)),
            forall|m: int| first <= m < k ==> is_digit(#[trigger] s[m]),
        decreases end - k,
    {
        let c = text[k];
        if c < 48 || c > 57 {
            assert(!is_digit(d[k - first]));
            return Err(BrightnessError::MalformedLevel);
        }
        let next: u128 = (acc as u128) * 10u128 + ((c - 48) as u128);
        let ghost pre = s.subrange(first as int, k + 1);
        assert(pre.subrange(0, pre.len() - 1) =~= s.subrange(first as int, k as int));
        assert(next as nat == digits_value(pre));
        if next > u64::MAX as u128 {
            assert(d.subrange(0, k + 1 - first) =~= pre);
            proof {
                lemma_prefix_value(d, k + 1 - first);
            }
            return Err(BrightnessError::MalformedLevel);
        }
        acc = next as u64;
        k += 1;
    }
    assert(s.subrange(first as int, k as int) =~= d);
    Ok(acc)
}

} // verus!
