//! Sizes written for people: `4`, `2k`, `10 M`.

use vstd::prelude::*;
use vstd::string::StrSliceExecFns;
use vstd::string::StringExecFns;
use crate::error::Error;
use crate::text::chars_of;

verus! {

/// The content length limit that applies when none is configured: 10 MiB.
pub const DEFAULT_MAX_CONTENT_LEN: u64 = 10 * 1024 * 1024;

/// The largest content length limit that can be configured: 1 GiB.
pub const CONTENT_LEN_LIMIT: u64 = 1024 * 1024 * 1024;

/// White space in the sense of Unicode's `White_Space` property.
pub open spec fn is_space(c: char) -> bool {
    let u = c as u32;
    ||| 0x09 <= u <= 0x0d
    ||| u == 0x20
    ||| u == 0x85
    ||| u == 0xa0
    ||| u == 0x1680
    ||| 0x2000 <= u <= 0x200a
    ||| u == 0x2028
    ||| u == 0x2029
    ||| u == 0x202f
    ||| u == 0x205f
    ||| u == 0x3000
}

/// `s` without the white space at its start.
pub open spec fn trim_start(s: Seq<char>) -> Seq<char>
    decreases s.len(),
{
    if s.len() > 0 && is_space(s.first()) {
        trim_start(s.drop_first())
    } else {
        s
    }
}

/// `s` without the white space at its end.
pub open spec fn trim_end(s: Seq<char>) -> Seq<char>
    decreases s.len(),
{
    if s.len() > 0 && is_space(s.last()) {
        trim_end(s.drop_last())
    } else {
        s
    }
}

/// `s` without the white space around it.
pub open spec fn trim(s: Seq<char>) -> Seq<char> {
    trim_end(trim_start(s))
}

/// One of the ten ASCII digits.
pub open spec fn is_digit(c: char) -> bool {
    '0' as u32 <= c as u32 <= '9' as u32
}

/// A decimal numeral: one or more ASCII digits and nothing else.
pub open spec fn is_decimal(s: Seq<char>) -> bool {
    &&& s.len() > 0
    &&& forall|i: int| 0 <= i < s.len() ==> is_digit(#[trigger] s[i])
}

/// The number that the digit `c` denotes.
pub open spec fn digit_value(c: char) -> nat {
    if is_digit(c) {
        (c as u32 - '0' as u32) as nat
    } else {
        0
    }
}

/// The number that a string of digits denotes, however large.
pub open spec fn decimal_value(s: Seq<char>) -> nat
    decreases s.len(),
{
    if s.len() == 0 {
        0
    } else {
        decimal_value(s.drop_last()) * 10 + digit_value(s.last())
    }
}

/// The number of bytes in the unit that the suffix `c` names, if it names one.
pub open spec fn unit_factor(c: char) -> Option<nat> {
    if c == 'k' || c == 'K' {
        Some(1024)
    } else if c == 'm' || c == 'M' {
        Some(1024 * 1024)
    } else if c == 'g' || c == 'G' {
        Some(1024 * 1024 * 1024)
    } else {
        None
    }
}

/// The size that the trimmed text `t` denotes, before any range check:
/// the default for the empty text, the number itself for a decimal, and for a
/// decimal followed by optional white space and a unit its multiple of that
/// unit. `None` for any other text.
pub open spec fn written_size(t: Seq<char>) -> Option<nat> {
    if t.len() == 0 {
        Some(DEFAULT_MAX_CONTENT_LEN as nat)
    } else if is_decimal(t) {
        Some(decimal_value(t))
    } else {
        let number = trim(t.drop_last());
        match unit_factor(t.last()) {
            Some(factor) => if is_decimal(number) {
                Some(decimal_value(number) * factor)
            } else {
                None
            },
            None => None,
        }
    }
}

/// A size that may be configured: positive and within the limit.
pub open spec fn size_in_range(n: nat) -> bool {
    0 < n <= CONTENT_LEN_LIMIT
}

/// The message for a text `t` that denotes a size outside the range.
pub open spec fn out_of_range_text(t: Seq<char>) -> Seq<char> {
    "Invalid size in max_content_len '"@ + t + "': value must be >0 and <= 1073741824"@
}

/// The message for a text `t` that denotes no size at all.
pub open spec fn malformed_text(t: Seq<char>) -> Seq<char> {
    "Invalid size in max_content_len: '"@ + t
        + "'. Should be a number, optionally followed by 'K', 'M', or 'G'. Example: '10M'. Value must be <= i32::MAX"@
}

/// What `convert_human_size` answers for the text `s`.
pub open spec fn human_size(s: Seq<char>) -> Result<u64, Seq<char>> {
    match written_size(trim(s)) {
        Some(n) => if size_in_range(n) {
            Ok(n as u64)
        } else {
            Err(out_of_range_text(trim(s)))
        },
        None => Err(malformed_text(trim(s))),
    }
}

fn space(c: char) -> (b: bool)
    ensures
        b == is_space(c),
{
    let u: u32 = c as u32;
    (0x09 <= u && u <= 0x0d) || u == 0x20 || u == 0x85 || u == 0xa0 || u == 0x1680 || (0x2000 <= u
        && u <= 0x200a) || u == 0x2028 || u == 0x2029 || u == 0x202f || u == 0x205f || u
        == 0x3000
}

/// White space at the start of a range does not count for what is left
/// after trimming.
proof fn lemma_trim_start_step(s: Seq<char>, i: int, n: int)
    requires
        0 <= i < n <= s.len(),
        is_space(s[i]),
    ensures
        trim_start(s.subrange(i, n)) == trim_start(s.subrange(i + 1, n)),
{
    assert(s.subrange(i, n).drop_first() =~= s.subrange(i + 1, n));
}

/// Nor does white space at its end.
proof fn lemma_trim_end_step(s: Seq<char>, i: int, n: int)
    requires
        0 <= i < n <= s.len(),
        is_space(s[n - 1]),
    ensures
        trim_end(s.subrange(i, n)) == trim_end(s.subrange(i, n - 1)),
{
    assert(s.subrange(i, n).drop_last() =~= s.subrange(i, n - 1));
}

/// One more digit at the end multiplies by ten and adds the digit.
proof fn lemma_decimal_step(s: Seq<char>, j: int)
    requires
        0 <= j < s.len(),
    ensures
        decimal_value(s.subrange(0, j + 1)) == decimal_value(s.subrange(0, j)) * 10 + digit_value(
            s[j],
        ),
{
    assert(s.subrange(0, j + 1).drop_last() =~= s.subrange(0, j));
}

/// The bounds of `s` without the white space around it.
fn trim_bounds(s: &Vec<char>, from: usize, to: usize) -> (r: (usize, usize))
    requires
        from <= to <= s.len(),
    ensures
        from <= r.0 <= r.1 <= to,
        s@.subrange(r.0 as int, r.1 as int) == trim(s@.subrange(from as int, to as int)),
{
    let mut a: usize = from;
    while a < to && space(s[a])
        invariant
            from <= a <= to <= s.len(),
            trim_start(s@.subrange(from as int, to as int)) == trim_start(
                s@.subrange(a as int, to as int),
            ),
        decreases to - a,
    {
        proof {
            lemma_trim_start_step(s@, a as int, to as int);
        }
        a = a + 1;
    }
    let mut b: usize = to;
    while a < b && space(s[b - 1])
        invariant
            a <= b <= to <= s.len(),
            trim_end(s@.subrange(a as int, to as int)) == trim_end(s@.subrange(a as int, b as int)),
        decreases b - a,
    {
        proof {
            lemma_trim_end_step(s@, a as int, b as int);
        }
        b = b - 1;
    }
    (a, b)
}

/// The value of the numeral between `from` and `to`, capped just above the
/// limit; `None` if the characters there are no numeral.
fn read_decimal(s: &Vec<char>, from: usize, to: usize) -> (r: Option<u64>)
    requires
        from <= to <= s.len(),
    ensures
        r is Some <==> is_decimal(s@.subrange(from as int, to as int)),
        r matches Some(v) ==> v == if decimal_value(s@.subrange(from as int, to as int))
            <= CONTENT_LEN_LIMIT {
            decimal_value(s@.subrange(from as int, to as int))
        } else {
            (CONTENT_LEN_LIMIT + 1) as nat
        },
{
    if from == to {
        return None;
    }
    let ghost t = s@.subrange(from as int, to as int);
    let mut value: u64 = 0;
    let mut j: usize = from;
    while j < to
        invariant
            from <= j <= to <= s.len(),
            t == s@.subrange(from as int, to as int),
            forall|i: int| 0 <= i < j - from ==> is_digit(#[trigger] t[i]),
            value == if decimal_value(t.subrange(0, j - from)) <= CONTENT_LEN_LIMIT {
                decimal_value(t.subrange(0, j - from))
            } else {
                (CONTENT_LEN_LIMIT + 1) as nat
            },
        decreases to - j,
    {
        let c: char = s[j];
        let u: u32 = c as u32;
        if u < '0' as u32 || u > '9' as u32 {
            assert(!is_digit(t[j - from]));
            return None;
        }
        proof {
            lemma_decimal_step(t, j - from);
        }
        if value <= CONTENT_LEN_LIMIT {
            let next: u64 = value * 10 + (u - '0' as u32) as u64;
            value = if next <= CONTENT_LEN_LIMIT {
                next
            } else {
                CONTENT_LEN_LIMIT + 1
            };
        }
        j = j + 1;
    }
    assert(t.subrange(0, t.len() as int) =~= t);
    Some(value)
}

/// The number of bytes in the unit that `c` names, if it names one.
fn read_unit(c: char) -> (r: Option<u64>)
    ensures
        r is Some <==> unit_factor(c) is Some,
        r matches Some(f) ==> unit_factor(c) == Some(f as nat),
{
    if c == 'k' || c == 'K' {
        Some(1024)
    } else if c == 'm' || c == 'M' {
        Some(1024 * 1024)
    } else if c == 'g' || c == 'G' {
        Some(1024 * 1024 * 1024)
    } else {
        None
    }
}

/// Reads a content length limit of the form `[0-9]+ *(k|K|m|M|g|G)?`, with
/// white space allowed around it.
///
/// The empty text stands for the default. A unit multiplies by 1024, 1024²
/// or 1024³. The size must be positive and at most [`CONTENT_LEN_LIMIT`];
/// the error says whether the text denotes a size outside that range or no
/// size at all.
pub fn convert_human_size(value: &str) -> (r: Result<u64, Error>)
    ensures
        match human_size(value@) {
            Ok(n) => r == Ok::<u64, Error>(n),
            Err(text) => r matches Err(Error::Settings(m)) && m@ == text,
        },
{
    let chars: Vec<char> = chars_of(value);
    let n: usize = chars.len();
    assert(chars@.subrange(0, n as int) =~= value@);
    let (a, b) = trim_bounds(&chars, 0, n);
    let ghost t = trim(value@);
    let trimmed: &str = value.substring_char(a, b);
    let mut limit: Option<u64> = None;
    if a == b {
        limit = Some(DEFAULT_MAX_CONTENT_LEN);
    } else {
        match read_decimal(&chars, a, b) {
            Some(v) => {
                limit = Some(v);
            },
            None => {
                let (c, d) = trim_bounds(&chars, a, b - 1);
                let unit: char = chars[b - 1];
                assert(t.drop_last() =~= chars@.subrange(a as int, b - 1));
                assert(t.last() == unit);
                let ghost number = trim(t.drop_last());
                match read_decimal(&chars, c, d) {
                    Some(v) => {
                        match read_unit(unit) {
                            Some(f) => {
                                assert(v * f <= 1152921505680588800) by (nonlinear_arith)
                                    requires
                                        v <= 1073741825,
                                        f <= 1073741824,
                                ;
                                assert(decimal_value(number) > CONTENT_LEN_LIMIT
                                    ==> decimal_value(number) * f > CONTENT_LEN_LIMIT)
                                    by (nonlinear_arith)
                                    requires
                                        f >= 1,
                                ;
                                assert(v > CONTENT_LEN_LIMIT ==> v * f > CONTENT_LEN_LIMIT)
                                    by (nonlinear_arith)
                                    requires
                                        f >= 1,
                                ;
                                limit = Some(v * f);
                            },
                            None => {},
                        }
                    },
                    None => {},
                }
            },
        }
    }
    match limit {
        Some(x) => {
            if x > 0 && x <= CONTENT_LEN_LIMIT {
                Ok(x)
            } else {
                let m: String = String::from_str("Invalid size in max_content_len '").concat(
                    trimmed,
                ).concat("': value must be >0 and <= 1073741824");
                Err(Error::Settings(m))
            }
        },
        None => {
            let m: String = String::from_str("Invalid size in max_content_len: '").concat(
                trimmed,
            ).concat(
                "'. Should be a number, optionally followed by 'K', 'M', or 'G'. Example: '10M'. Value must be <= i32::MAX",
            );
            Err(Error::Settings(m))
        },
    }
}

} // verus!
