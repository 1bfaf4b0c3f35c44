//! Settings read once per process from configured text.
use vstd::prelude::*;

verus! {

/// Copy buffer size when none, or no valid one, is configured.
pub const DEFAULT_BUFSIZE: usize = 2048;

pub open spec fn is_digit(c: char) -> bool {
    48 <= (c as u32) <= 57
}

pub open spec fn all_digits(s: Seq<char>) -> bool {
    forall|i: int| 0 <= i < s.len() ==> is_digit(#[trigger] s[i])
}

/// The value of a run of decimal digits.
pub open spec fn digits_value(s: Seq<char>) -> int
    decreases s.len(),
{
    if s.len() == 0 {
        0
    } else {
        digits_value(s.drop_last()) * 10 + (s.last() as u32 - 48)
    }
}

/// The digits of an unsigned decimal: the text without one leading '+'.
pub open spec fn unsigned_body(s: Seq<char>) -> Seq<char> {
    if s.len() > 0 && s[0] == '+' {
        s.drop_first()
    } else {
        s
    }
}

/// What reading a text as a `usize` gives: one or more decimal digits after
/// an optional '+', whose value fits.
pub open spec fn usize_of(s: Seq<char>) -> Option<usize> {
    let b = unsigned_body(s);
    if b.len() > 0 && all_digits(b) && digits_value(b) <= usize::MAX {
        Some(digits_value(b) as usize)
    } else {
        None
    }
}

proof fn lemma_digits_grow(b: Seq<char>, k: int)
    requires
        all_digits(b),
        0 <= k <= b.len(),
    ensures
        0 <= digits_value(b.subrange(0, k)) <= digits_value(b),
    decreases b.len(),
{
    if b.len() == 0 {
        assert(b.subrange(0, k) =~= b);
    } else if k == b.len() {
        assert(b.subrange(0, k) =~= b);
        lemma_digits_grow(b.drop_last(), 0);
    } else {
        assert(all_digits(b.drop_last()));
        lemma_digits_grow(b.drop_last(), k);
        assert(b.drop_last().subrange(0, k) =~= b.subrange(0, k));
    }
}

/// Reads a text as a `usize`.
pub fn parse_usize(s: &str) -> (r: Option<usize>)
    ensures
        r == usize_of(s@),
{
    let n = s.unicode_len();
    let start: usize = if n > 0 && s.get_char(0) == '+' {
        1
    } else {
        0
    };
    let ghost b = unsigned_body(s@);
    assert(b =~= s@.subrange(start as int, n as int));
    if start == n {
        return None;
    }
    let mut v: usize = 0;
    let mut i: usize = start;
    while i < n
        invariant
            n == s@.len(),
            start <= i <= n,
            b == s@.subrange(start as int, n as int),
            b == unsigned_body(s@),
            all_digits(b.subrange(0, i - start)),
            v as int == digits_value(b.subrange(0, i - start)),
        decreases n - i,
    {
        let c = s.get_char(i);
        assert(b[i - start] == c);
        if !(48 <= c as u32 && c as u32 <= 57) {
            assert(!is_digit(b[i - start]));
            return None;
        }
        let ghost next = b.subrange(0, i - start + 1);
        assert(next.drop_last() =~= b.subrange(0, i - start));
        assert(all_digits(next));
        let d = (c as u32 - 48) as usize;
        assert(next.last() == c);
        assert(digits_value(next) == v * 10 + d);
        let grown = match v.checked_mul(10) {
            Some(t) => t.checked_add(d),
            None => None,
        };
        match grown {
            Some(w) => {
                v = w;
            },
            None => {
                proof {
                    if all_digits(b) {
                        lemma_digits_grow(b, i - start + 1);
                    }
                }
                return None;
            },
        }
        i = i + 1;
    }
    assert(b.subrange(0, n - start) =~= b);
    Some(v)
}

/// The copy buffer size: the configured value where it reads as a `usize`,
/// else `DEFAULT_BUFSIZE`.
pub fn buffer_size(configured: Option<&str>) -> (r: usize)
    ensures
        r == match configured {
            Some(c) => match usize_of(c@) {
                Some(v) => v,
                None => DEFAULT_BUFSIZE,
            },
            None => DEFAULT_BUFSIZE,
        },
{
    match configured {
        Some(c) => match parse_usize(c) {
            Some(v) => v,
            None => DEFAULT_BUFSIZE,
        },
        None => DEFAULT_BUFSIZE,
    }
}

} // verus!
