//! Verified parsing of numbers out of step file names and of command-line
//! range arguments.

use vstd::prelude::*;
use vstd::string::{StrSliceExecFns, StringExecFns};

verus! {

/// Whether `c` is an ASCII decimal digit.
pub open spec fn is_digit(c: char) -> bool {
    48 <= c as u32 <= 57
}

/// The numeric value of a digit character.
pub open spec fn digit_val(c: char) -> nat {
    (c as u32 - 48) as nat
}

/// Whether every character of `ds` is a digit.
pub open spec fn all_digits(ds: Seq<char>) -> bool {
    forall|i: int| 0 <= i < ds.len() ==> is_digit(#[trigger] ds[i])
}

/// The numeric value of a digit string, most significant digit first.
pub open spec fn dec_value(ds: Seq<char>) -> nat
    decreases ds.len(),
{
    if ds.len() == 0 {
        0
    } else {
        dec_value(ds.drop_last()) * 10 + digit_val(ds.last())
    }
}

/// The length of the longest prefix of `s` made of digits.
pub open spec fn digit_prefix_len(s: Seq<char>) -> nat
    decreases s.len(),
{
    if s.len() == 0 || !is_digit(s[0]) {
        0
    } else {
        1 + digit_prefix_len(s.drop_first())
    }
}

/// A scan that saw digits up to `i` and then stopped determines the digit
/// prefix length.
proof fn lemma_digit_prefix_len(s: Seq<char>, i: int)
    requires
        0 <= i <= s.len(),
        forall|j: int| 0 <= j < i ==> is_digit(#[trigger] s[j]),
        i < s.len() ==> !is_digit(s[i]),
    ensures
        digit_prefix_len(s) == i,
    decreases i,
{
    if i == 0 {
    } else {
        assert(is_digit(s[0]));
        lemma_digit_prefix_len(s.drop_first(), i - 1);
    }
}

/// Extending a digit string never decreases its value.
proof fn lemma_dec_value_monotone(ds: Seq<char>, i: int, j: int)
    requires
        0 <= i <= j <= ds.len(),
    ensures
        dec_value(ds.subrange(0, i)) <= dec_value(ds.subrange(0, j)),
    decreases j - i,
{
    if i < j {
        lemma_dec_value_monotone(ds, i, j - 1);
        assert(ds.subrange(0, j).drop_last() =~= ds.subrange(0, j - 1));
    }
}

/// What parsing the digit prefix of `s` yields: `None` when there is no
/// digit prefix or its value does not fit in `usize`, else the value.
pub open spec fn spec_parse_usize_prefix(s: Seq<char>) -> Option<usize> {
    let k = digit_prefix_len(s) as int;
    if k == 0 {
        None
    } else if dec_value(s.subrange(0, k)) > usize::MAX {
        None
    } else {
        Some(dec_value(s.subrange(0, k)) as usize)
    }
}

/// Parses the digit prefix of `input` as a number: `None` when `input` does
/// not start with a digit, or when the prefix's value overflows `usize`.
pub fn parse_usize_prefix(input: &str) -> (r: Option<usize>)
    ensures
        r == spec_parse_usize_prefix(input@),
{
    let n = input.unicode_len();
    let mut i: usize = 0;
    let mut acc: usize = 0;
    let mut overflow = false;
    loop
        invariant
            n == input@.len(),
            i <= n,
            forall|j: int| 0 <= j < i ==> is_digit(#[trigger] input@[j]),
            !overflow ==> acc == dec_value(input@.subrange(0, i as int)),
            overflow ==> dec_value(input@.subrange(0, i as int)) > usize::MAX,
        ensures
            i <= n,
            forall|j: int| 0 <= j < i ==> is_digit(#[trigger] input@[j]),
            i < n ==> !is_digit(input@[i as int]),
            !overflow ==> acc == dec_value(input@.subrange(0, i as int)),
            overflow ==> dec_value(input@.subrange(0, i as int)) > usize::MAX,
        decreases n - i,
    {
        if i >= n {
            break;
        }
        let c = input.get_char(i);
        let u = c as u32;
        if !(48 <= u && u <= 57) {
            break;
        }
        let d = (u - 48) as usize;
        proof {
            assert(input@.subrange(0, i + 1).drop_last() =~= input@.subrange(0, i as int));
            assert(input@.subrange(0, i + 1).last() == input@[i as int]);
        }
        if !overflow {
            match acc.checked_mul(10) {
                Some(m) => match m.checked_add(d) {
                    Some(a) => {
                        acc = a;
                    },
                    None => {
                        overflow = true;
                    },
                },
                None => {
                    proof {
                        assert(dec_value(input@.subrange(0, i + 1)) == acc * 10 + digit_val(
                            input@[i as int],
                        ));
                    }
                    overflow = true;
                },
            }
        } else {
            proof {
                assert(dec_value(input@.subrange(0, i + 1)) >= dec_value(
                    input@.subrange(0, i as int),
                ));
            }
        }
        i = i + 1;
    }
    proof {
        lemma_digit_prefix_len(input@, i as int);
    }
    if i == 0 {
        None
    } else if overflow {
        None
    } else {
        Some(acc)
    }
}

/// What parsing a whole string as a `usize` yields: an optional `'+'`, then
/// one or more digits, with a value that fits.
pub open spec fn spec_parse_usize(cs: Seq<char>) -> Option<usize> {
    let ds = if cs.len() > 0 && cs[0] == '+' {
        cs.drop_first()
    } else {
        cs
    };
    if ds.len() == 0 || !all_digits(ds) || dec_value(ds) > usize::MAX {
        None
    } else {
        Some(dec_value(ds) as usize)
    }
}

/// Parses all of `s` as a `usize`, accepting an optional leading `'+'`.
pub fn parse_usize_all(s: &str) -> (r: Option<usize>)
    ensures
        r == spec_parse_usize(s@),
{
    let n = s.unicode_len();
    let o: usize = if n > 0 && s.get_char(0) == '+' {
        1
    } else {
        0
    };
    let ghost ds = if s@.len() > 0 && s@[0] == '+' {
        s@.drop_first()
    } else {
        s@
    };
    proof {
        assert(ds =~= s@.subrange(o as int, n as int));
    }
    if n == o {
        return None;
    }
    let mut i: usize = o;
    let mut acc: usize = 0;
    while i < n
        invariant
            n == s@.len(),
            o <= i <= n,
            o == (if s@.len() > 0 && s@[0] == '+' {
                1int
            } else {
                0int
            }),
            ds == (if s@.len() > 0 && s@[0] == '+' {
                s@.drop_first()
            } else {
                s@
            }),
            ds == s@.subrange(o as int, n as int),
            forall|j: int| o <= j < i ==> is_digit(#[trigger] s@[j]),
            acc == dec_value(s@.subrange(o as int, i as int)),
            dec_value(s@.subrange(o as int, i as int)) <= usize::MAX,
        decreases n - i,
    {
        let c = s.get_char(i);
        let u = c as u32;
        proof {
            assert(s@.subrange(o as int, i + 1).drop_last() =~= s@.subrange(o as int, i as int));
            assert(s@.subrange(o as int, i + 1).last() == s@[i as int]);
        }
        if !(48 <= u && u <= 57) {
            proof {
                assert(ds[i - o] == s@[i as int]);
            }
            return None;
        }
        let d = (u - 48) as usize;
        match acc.checked_mul(10) {
            Some(m) => match m.checked_add(d) {
                Some(a) => {
                    acc = a;
                },
                None => {
                    proof {
                        lemma_dec_value_monotone(ds, i + 1 - o, ds.len() as int);
                        assert(ds.subrange(0, i + 1 - o) =~= s@.subrange(o as int, i + 1));
                        assert(ds.subrange(0, ds.len() as int) =~= ds);
                    }
                    return None;
                },
            },
            None => {
                proof {
                    lemma_dec_value_monotone(ds, i + 1 - o, ds.len() as int);
                    assert(ds.subrange(0, i + 1 - o) =~= s@.subrange(o as int, i + 1));
                    assert(ds.subrange(0, ds.len() as int) =~= ds);
                }
                return None;
            },
        }
        i = i + 1;
    }
    proof {
        assert(s@.subrange(o as int, n as int) =~= ds);
        assert(forall|j: int| 0 <= j < ds.len() ==> ds[j] == s@[j + o]);
    }
    Some(acc)
}

/// How many times `c` occurs in `s`.
pub open spec fn count_char(s: Seq<char>, c: char) -> nat
    decreases s.len(),
{
    if s.len() == 0 {
        0
    } else {
        count_char(s.drop_last(), c) + (if s.last() == c {
            1nat
        } else {
            0nat
        })
    }
}

/// A character that occurs at some position counts at least once.
proof fn lemma_count_char_pos(s: Seq<char>, c: char, i: int)
    requires
        0 <= i < s.len(),
        s[i] == c,
    ensures
        count_char(s, c) >= 1,
    decreases s.len(),
{
    if i < s.len() - 1 {
        lemma_count_char_pos(s.drop_last(), c, i);
    }
}

/// The count of a character never exceeds the length.
proof fn lemma_count_char_le_len(s: Seq<char>, c: char)
    ensures
        count_char(s, c) <= s.len(),
    decreases s.len(),
{
    if s.len() > 0 {
        lemma_count_char_le_len(s.drop_last(), c);
    }
}

/// Two distinct occurrences make the count at least two.
proof fn lemma_count_char_two(s: Seq<char>, c: char, i: int, j: int)
    requires
        0 <= i < j < s.len(),
        s[i] == c,
        s[j] == c,
    ensures
        count_char(s, c) >= 2,
    decreases s.len(),
{
    if j == s.len() - 1 {
        lemma_count_char_pos(s.drop_last(), c, i);
    } else {
        lemma_count_char_two(s.drop_last(), c, i, j);
    }
}

/// The outcome of parsing a range string split at the separator position
/// `k`: both sides must parse as `usize` and the first bound must not exceed
/// the second.
pub open spec fn spec_parse_range_at(s: Seq<char>, k: int) -> Result<(usize, usize), Seq<char>> {
    let a = s.subrange(0, k);
    let b = s.subrange(k + 1, s.len() as int);
    match (spec_parse_usize(a), spec_parse_usize(b)) {
        (Option::None, _) => Result::Err("Invalid number: "@ + a),
        (Option::Some(x), Option::None) => Result::Err("Invalid number: "@ + b),
        (Option::Some(x), Option::Some(y)) => if x > y {
            Result::Err("End must be less than start: "@ + s)
        } else {
            Result::Ok((x, y))
        },
    }
}

/// Whether the executable result agrees with the specified one, comparing
/// error strings by contents.
pub open spec fn range_result_matches(
    r: Result<(usize, usize), String>,
    sp: Result<(usize, usize), Seq<char>>,
) -> bool {
    match (r, sp) {
        (Result::Ok(v), Result::Ok(w)) => v == w,
        (Result::Err(m), Result::Err(e)) => m@ == e,
        _ => false,
    }
}

/// Parses a range argument of the form `lo-hi`. The string must contain
/// exactly one `'-'`; both sides must parse as numbers; and `lo` must not
/// exceed `hi`. Each failure yields its own message.
pub fn parse_range(s: &str) -> (r: Result<(usize, usize), String>)
    ensures
        count_char(s@, '-') != 1 ==> (r matches Err(m) && m@ == "Invalid range format: "@ + s@),
        count_char(s@, '-') == 1 ==> forall|k: int|
            0 <= k < s@.len() && s@[k] == '-' ==> range_result_matches(
                r,
                #[trigger] spec_parse_range_at(s@, k),
            ),
{
    let n = s.unicode_len();
    let mut first_dash: Option<usize> = None;
    let mut dashes: usize = 0;
    let mut i: usize = 0;
    while i < n
        invariant
            n == s@.len(),
            i <= n,
            dashes == count_char(s@.subrange(0, i as int), '-'),
            first_dash is None ==> dashes == 0,
            first_dash matches Some(k) ==> k < i && s@[k as int] == '-' && forall|j: int|
                0 <= j < k ==> s@[j] != '-',
        decreases n - i,
    {
        proof {
            assert(s@.subrange(0, i + 1).drop_last() =~= s@.subrange(0, i as int));
            assert(s@.subrange(0, i + 1).last() == s@[i as int]);
            lemma_count_char_le_len(s@.subrange(0, i as int), '-');
        }
        if s.get_char(i) == '-' {
            if first_dash.is_none() {
                proof {
                    assert forall|j: int| 0 <= j < i implies s@[j] != '-' by {
                        if s@[j] == '-' {
                            assert(s@.subrange(0, i as int)[j] == s@[j]);
                            lemma_count_char_pos(s@.subrange(0, i as int), '-', j);
                        }
                    }
                }
                first_dash = Some(i);
            }
            dashes = dashes + 1;
        }
        i = i + 1;
    }
    proof {
        assert(s@.subrange(0, n as int) =~= s@);
    }
    if dashes != 1 {
        let mut m = String::new();
        m.append("Invalid range format: ");
        m.append(s);
        proof {
            assert(m@ =~= "Invalid range format: "@ + s@);
        }
        return Err(m);
    }
    let k = match first_dash {
        Some(k) => k,
        None => vstd::pervasive::unreached(),
    };
    proof {
        assert forall|k2: int| 0 <= k2 < s@.len() && s@[k2] == '-' implies k2 == k as int by {
            if k2 < k {
                lemma_count_char_two(s@, '-', k2, k as int);
            } else if k2 > k {
                lemma_count_char_two(s@, '-', k as int, k2);
            }
        }
    }
    let a = s.substring_char(0, k);
    let b = s.substring_char(k + 1, n);
    let start = match parse_usize_all(a) {
        Some(v) => v,
        None => {
            let mut m = String::new();
            m.append("Invalid number: ");
            m.append(a);
            proof {
                assert(m@ =~= "Invalid number: "@ + a@);
            }
            return Err(m);
        },
    };
    let end = match parse_usize_all(b) {
        Some(v) => v,
        None => {
            let mut m = String::new();
            m.append("Invalid number: ");
            m.append(b);
            proof {
                assert(m@ =~= "Invalid number: "@ + b@);
            }
            return Err(m);
        },
    };
    if start > end {
        let mut m = String::new();
        m.append("End must be less than start: ");
        m.append(s);
        proof {
            assert(m@ =~= "End must be less than start: "@ + s@);
        }
        return Err(m);
    }
    Ok((start, end))
}

} // verus!
