//! Numbers and blanks in text, as archives hold them.

use vstd::prelude::*;
use vstd::string::*;

verus! {

/// Whether a character is white space.
pub open spec fn is_blank(c: char) -> bool {
    let n = c as u32;
    ||| 0x09 <= n <= 0x0d
    ||| n == 0x20
    ||| n == 0x85
    ||| n == 0xa0
    ||| n == 0x1680
    ||| 0x2000 <= n <= 0x200a
    ||| n == 0x2028
    ||| n == 0x2029
    ||| n == 0x202f
    ||| n == 0x205f
    ||| n == 0x3000
}

/// How many of the first `n` characters remain when white space is taken off the
/// end.
pub open spec fn blank_end(s: Seq<char>, n: int) -> int
    decreases n,
{
    if n <= 0 || n > s.len() {
        0
    } else if is_blank(s[n - 1]) {
        blank_end(s, n - 1)
    } else {
        n
    }
}

/// A text without white space at its end.
pub open spec fn trimmed_end(s: Seq<char>) -> Seq<char> {
    s.take(blank_end(s, s.len() as int))
}

/// Where the first character from `i` on stands that is no white space.
pub open spec fn blank_start(s: Seq<char>, i: int) -> int
    decreases s.len() - i,
{
    if i < 0 || i >= s.len() {
        s.len() as int
    } else if is_blank(s[i]) {
        blank_start(s, i + 1)
    } else {
        i
    }
}

/// A text without white space at either end.
pub open spec fn trimmed(s: Seq<char>) -> Seq<char> {
    let t = trimmed_end(s);
    t.skip(blank_start(t, 0))
}

/// The value of a decimal digit.
pub open spec fn digit_value(c: char) -> Option<nat> {
    if '0' <= c <= '9' {
        Some((c as int - '0' as int) as nat)
    } else {
        None
    }
}

/// The number that digits from the `i`-th on stand for behind `so_far`, where it
/// fits.
pub open spec fn digits_value(s: Seq<char>, i: int, so_far: nat) -> Option<nat>
    decreases s.len() - i,
{
    if i < 0 || i >= s.len() {
        Some(so_far)
    } else {
        match digit_value(s[i]) {
            Some(d) => if so_far * 10 + d <= usize::MAX {
                digits_value(s, i + 1, so_far * 10 + d)
            } else {
                None
            },
            None => None,
        }
    }
}

/// The number that a text stands for: digits, with a plus sign in front or
/// without, and at least one.
pub open spec fn number(s: Seq<char>) -> Option<nat> {
    let from: int = if s.len() > 1 && s[0] == '+' {
        1
    } else {
        0
    };
    if s.len() == 0 {
        None
    } else {
        digits_value(s, from, 0)
    }
}

/// The number that a text stands for, or zero.
pub open spec fn number_or_zero(s: Seq<char>) -> nat {
    match number(s) {
        Some(n) => n,
        None => 0,
    }
}

/// Whether a character is white space.
pub fn is_white_space(c: char) -> (r: bool)
    ensures
        r == is_blank(c),
{
    let n: u32 = c as u32;
    (0x09 <= n && n <= 0x0d) || n == 0x20 || n == 0x85 || n == 0xa0 || n == 0x1680 || (0x2000 <= n
        && n <= 0x200a) || n == 0x2028 || n == 0x2029 || n == 0x202f || n == 0x205f || n == 0x3000
}

/// A text without white space at its end.
pub fn trim_end(s: &str) -> (r: &str)
    ensures
        r@ == trimmed_end(s@),
{
    let len: usize = s.unicode_len();
    let mut n: usize = len;
    while n > 0 && is_white_space(s.get_char(n - 1))
        invariant
            n <= len,
            len == s@.len(),
            blank_end(s@, n as int) == blank_end(s@, s@.len() as int),
        decreases n,
    {
        n = n - 1;
    }
    let t: &str = s.substring_char(0, n);
    assert(t@ =~= trimmed_end(s@));
    t
}

/// A text without white space at either end.
pub fn trim(s: &str) -> (r: &str)
    ensures
        r@ == trimmed(s@),
{
    let t: &str = trim_end(s);
    let len: usize = t.unicode_len();
    let mut i: usize = 0;
    while i < len && is_white_space(t.get_char(i))
        invariant
            i <= len,
            len == t@.len(),
            blank_start(t@, i as int) == blank_start(t@, 0),
        decreases len - i,
    {
        i = i + 1;
    }
    let u: &str = t.substring_char(i, len);
    assert(u@ =~= t@.skip(i as int));
    u
}

/// The number that a text stands for, or zero.
pub fn parse_or_zero(s: &str) -> (r: usize)
    ensures
        r == number_or_zero(s@),
{
    let len: usize = s.unicode_len();
    if len == 0 {
        return 0;
    }
    let from: usize = if len > 1 && s.get_char(0) == '+' {
        1
    } else {
        0
    };
    let mut i: usize = from;
    let mut n: usize = 0;
    while i < len
        invariant
            from <= i <= len,
            len == s@.len(),
            digits_value(s@, i as int, n as nat) == digits_value(s@, from as int, 0),
            number(s@) == digits_value(s@, from as int, 0),
        decreases len - i,
    {
        let c: char = s.get_char(i);
        if !('0' <= c && c <= '9') {
            return 0;
        }
        let d: usize = (c as u32 - '0' as u32) as usize;
        match n.checked_mul(10) {
            Some(m) => match m.checked_add(d) {
                Some(k) => {
                    n = k;
                },
                None => {
                    return 0;
                },
            },
            None => {
                return 0;
            },
        }
        i = i + 1;
    }
    n
}

} // verus!
