//! Verified text building: decimal rendering of integers, padding, and
//! trimming of trailing newline characters.

use vstd::prelude::*;
use vstd::string::{StrSliceExecFns, StringExecFns};

verus! {

/// The character for one decimal digit value.
pub open spec fn digit_char(d: nat) -> char {
    if d == 0 {
        '0'
    } else if d == 1 {
        '1'
    } else if d == 2 {
        '2'
    } else if d == 3 {
        '3'
    } else if d == 4 {
        '4'
    } else if d == 5 {
        '5'
    } else if d == 6 {
        '6'
    } else if d == 7 {
        '7'
    } else if d == 8 {
        '8'
    } else {
        '9'
    }
}

/// The decimal representation of `n`, most significant digit first, with no
/// leading zeros (a single `'0'` for zero).
pub open spec fn spec_decimal(n: nat) -> Seq<char>
    decreases n,
{
    if n < 10 {
        seq![digit_char(n)]
    } else {
        spec_decimal(n / 10).push(digit_char(n % 10))
    }
}

/// Appends the character for one digit value to `s`.
pub fn push_digit(s: &mut String, d: u64)
    requires
        d < 10,
    ensures
        final(s)@ == old(s)@.push(digit_char(d as nat)),
{
    let ds: &str = match d {
        0 => "0",
        1 => "1",
        2 => "2",
        3 => "3",
        4 => "4",
        5 => "5",
        6 => "6",
        7 => "7",
        8 => "8",
        _ => "9",
    };
    proof {
        reveal_strlit("0");
        reveal_strlit("1");
        reveal_strlit("2");
        reveal_strlit("3");
        reveal_strlit("4");
        reveal_strlit("5");
        reveal_strlit("6");
        reveal_strlit("7");
        reveal_strlit("8");
        reveal_strlit("9");
        assert(ds@ =~= seq![digit_char(d as nat)]);
    }
    s.append(ds);
    proof {
        assert(s@ =~= old(s)@.push(digit_char(d as nat)));
    }
}

/// Renders `n` in decimal.
pub fn u64_string(n: u64) -> (r: String)
    ensures
        r@ == spec_decimal(n as nat),
    decreases n,
{
    if n < 10 {
        let mut r = String::new();
        push_digit(&mut r, n);
        proof {
            assert(r@ =~= spec_decimal(n as nat));
        }
        r
    } else {
        let mut r = u64_string(n / 10);
        push_digit(&mut r, n % 10);
        r
    }
}

/// The decimal representation of a signed value: a minus sign for negative
/// values, then the digits of the magnitude.
pub open spec fn spec_signed_decimal(v: int) -> Seq<char> {
    if v >= 0 {
        spec_decimal(v as nat)
    } else {
        seq!['-'] + spec_decimal((-v) as nat)
    }
}

/// Renders `v` in decimal, with a sign when negative.
pub fn i32_string(v: i32) -> (r: String)
    ensures
        r@ == spec_signed_decimal(v as int),
{
    if v >= 0 {
        u64_string(v as u64)
    } else {
        let w: i64 = v as i64;
        let mag: u64 = (-w) as u64;
        let mut r = String::new();
        r.append("-");
        let digits = u64_string(mag);
        r.append(digits.as_str());
        proof {
            reveal_strlit("-");
            assert(r@ =~= seq!['-'] + spec_decimal((-(v as int)) as nat));
        }
        r
    }
}

/// `k` space characters.
pub open spec fn spec_spaces(k: nat) -> Seq<char> {
    Seq::new(k, |i: int| ' ')
}

/// A string of `k` spaces.
pub fn spaces(k: usize) -> (r: String)
    ensures
        r@ == spec_spaces(k as nat),
{
    let mut r = String::new();
    let mut i: usize = 0;
    while i < k
        invariant
            i <= k,
            r@ =~= spec_spaces(i as nat),
        decreases k - i,
    {
        r.append(" ");
        proof {
            reveal_strlit(" ");
            assert(r@ =~= spec_spaces((i + 1) as nat));
        }
        i = i + 1;
    }
    proof {
        assert(r@ =~= spec_spaces(k as nat));
    }
    r
}

/// `s` padded on the left with spaces to width `w`; a longer `s` is kept
/// whole.
pub open spec fn spec_pad_left(s: Seq<char>, w: nat) -> Seq<char> {
    if s.len() >= w {
        s
    } else {
        spec_spaces((w - s.len()) as nat) + s
    }
}

/// `s` padded on the right with spaces to width `w`; a longer `s` is kept
/// whole.
pub open spec fn spec_pad_right(s: Seq<char>, w: nat) -> Seq<char> {
    if s.len() >= w {
        s
    } else {
        s + spec_spaces((w - s.len()) as nat)
    }
}

/// Pads `s` on the left with spaces to width `w`.
pub fn pad_left(s: &str, w: usize) -> (r: String)
    ensures
        r@ == spec_pad_left(s@, w as nat),
{
    let n = s.unicode_len();
    if n >= w {
        let mut r = String::new();
        r.append(s);
        proof {
            assert(r@ =~= s@);
        }
        r
    } else {
        let mut r = spaces(w - n);
        r.append(s);
        r
    }
}

/// Pads `s` on the right with spaces to width `w`.
pub fn pad_right(s: &str, w: usize) -> (r: String)
    ensures
        r@ == spec_pad_right(s@, w as nat),
{
    let n = s.unicode_len();
    let mut r = String::new();
    r.append(s);
    if n < w {
        let pad = spaces(w - n);
        r.append(pad.as_str());
    }
    proof {
        assert(r@ =~= spec_pad_right(s@, w as nat));
    }
    r
}

/// Removes every trailing `'\n'` or `'\r'` from `s`.
pub open spec fn spec_strip_newlines(s: Seq<char>) -> Seq<char>
    decreases s.len(),
{
    if s.len() > 0 && (s.last() == '\n' || s.last() == '\r') {
        spec_strip_newlines(s.drop_last())
    } else {
        s
    }
}

/// Whether the character at `j` is a newline or carriage return.
fn newline_at(s: &str, j: usize) -> (b: bool)
    requires
        j < s@.len(),
    ensures
        b == (s@[j as int] == '\n' || s@[j as int] == '\r'),
{
    let c = s.get_char(j);
    c == '\n' || c == '\r'
}

/// Trims trailing newline and carriage-return characters.
pub fn strip_newlines(s: &str) -> (r: String)
    ensures
        r@ == spec_strip_newlines(s@),
{
    let n = s.unicode_len();
    let mut i: usize = n;
    proof {
        assert(s@.subrange(0, n as int) =~= s@);
    }
    while i > 0 && newline_at(s, i - 1)
        invariant
            i <= n,
            n == s@.len(),
            spec_strip_newlines(s@) == spec_strip_newlines(s@.subrange(0, i as int)),
        decreases i,
    {
        proof {
            assert(s@.subrange(0, i as int).drop_last() =~= s@.subrange(0, i - 1));
            assert(s@.subrange(0, i as int).last() == s@[i - 1]);
        }
        i = i - 1;
    }
    let cut = s.substring_char(0, i);
    proof {
        if i > 0 {
            assert(s@.subrange(0, i as int).last() == s@[i - 1]);
        }
        assert(spec_strip_newlines(s@.subrange(0, i as int)) == s@.subrange(0, i as int));
    }
    let mut r = String::new();
    r.append(cut);
    proof {
        assert(r@ =~= cut@);
    }
    r
}

} // verus!
