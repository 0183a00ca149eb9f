//! The user-facing commands and the intent record the resolver consumes.
//!
//! The argument-parsing front end hands these structs over as plain values;
//! quantities that arrive as real numbers on the command line are carried
//! here in exact fixed-point units (millihertz, thousandths of a scale).

use vstd::prelude::*;
use vstd::string::*;

verus! {

/// A parsed invocation: exactly one command.
#[derive(Clone, Debug)]
pub struct Cli {
    pub command: Command,
}

/// The two commands: list what is there, or set a new configuration.
#[derive(Clone, Debug)]
pub enum Command {
    /// List monitors, or the modes of one monitor.
    List(ListArgs),
    /// Resolve an intent against the current state and apply it.
    SetConfig(SetArgs),
}

/// Arguments of the listing command.
#[derive(Clone, Debug)]
pub struct ListArgs {
    /// If given, list all available modes of the monitor with this connector
    /// name instead of the monitor overview.
    pub connector: Option<String>,
}

/// The desired-intent record: a partial description of the wanted
/// configuration. `resolution` and `max_resolution` are mutually exclusive,
/// as are `refresh_rate` and `max_refresh_rate`.
#[derive(Clone, Debug)]
pub struct SetArgs {
    /// Name of the monitor connector, e.g. DP-1, HDMI-2.
    pub connector: String,
    /// Store the configuration to disk after applying it.
    pub persistent: bool,
    /// Desired resolution as (width, height) in pixels.
    pub resolution: Option<(u32, u32)>,
    /// Select the largest available resolution.
    pub max_resolution: bool,
    /// Desired refresh rate in millihertz, matched on a best-effort basis:
    /// asking for 60_000 selects 59_980 when that is the closest available.
    pub refresh_rate: Option<u32>,
    /// Select the highest refresh rate of the selected resolution.
    pub max_refresh_rate: bool,
    /// Switch variable refresh rate on or off.
    pub vrr: Option<bool>,
    /// UI scaling in percent, e.g. 100, 150, 200. The closest supported
    /// scale is selected when it lies within the same quarter step.
    pub scaling: Option<u32>,
    /// Switch high dynamic range color mode on or off.
    pub hdr: Option<bool>,
}

// ---------------------------------------------------------------------------
// Parsing a resolution argument
// ---------------------------------------------------------------------------

/// The character is a decimal digit.
pub open spec fn is_ascii_digit(c: char) -> bool {
    '0' <= c && c <= '9'
}

/// The numeric value of a decimal digit character.
pub open spec fn digit_val(c: char) -> int {
    c as int - 48
}

/// Every character of the sequence is a decimal digit.
pub open spec fn all_digits(s: Seq<char>) -> bool {
    forall|i: int| 0 <= i < s.len() ==> is_ascii_digit(s[i])
}

/// The base-ten value of a digit sequence.
pub open spec fn digits_val(s: Seq<char>) -> int
    decreases s.len(),
{
    if s.len() == 0 {
        0
    } else {
        digits_val(s.drop_last()) * 10 + digit_val(s.last())
    }
}

/// The character separates width from height in a resolution argument.
pub open spec fn is_res_separator(c: char) -> bool {
    c == 'x' || c == 'X'
}

/// `p` is the position of the one and only separator of the sequence.
pub open spec fn is_only_separator(s: Seq<char>, p: int) -> bool {
    &&& 0 <= p < s.len()
    &&& is_res_separator(s[p])
    &&& forall|j: int| 0 <= j < s.len() && j != p ==> !is_res_separator(s[j])
}

/// The position of the one and only separator; meaningful only when one
/// exists.
pub open spec fn the_separator(s: Seq<char>) -> int {
    choose|p: int| is_only_separator(s, p)
}

/// The digits before the separator form a number that fits a `u32`.
pub open spec fn valid_width_part(s: Seq<char>, p: int) -> bool {
    &&& 0 < p
    &&& all_digits(s.subrange(0, p))
    &&& digits_val(s.subrange(0, p)) <= u32::MAX
}

/// The digits after the separator form a number that fits a `u32`.
pub open spec fn valid_height_part(s: Seq<char>, p: int) -> bool {
    &&& p < s.len() - 1
    &&& all_digits(s.subrange(p + 1, s.len() as int))
    &&& digits_val(s.subrange(p + 1, s.len() as int)) <= u32::MAX
}

/// What a resolution argument denotes: `Some((width, height))` exactly when
/// the string is digits, one separator, digits, with both numbers fitting a
/// `u32`.
pub open spec fn spec_parse_resolution(s: Seq<char>) -> Option<(u32, u32)> {
    if exists|p: int| is_only_separator(s, p) {
        let p = the_separator(s);
        if valid_width_part(s, p) && valid_height_part(s, p) {
            Some(
                (
                    digits_val(s.subrange(0, p)) as u32,
                    digits_val(s.subrange(p + 1, s.len() as int)) as u32,
                ),
            )
        } else {
            None
        }
    } else {
        None
    }
}

/// The value of a digit sequence is never negative.
proof fn lemma_digits_val_nonneg(s: Seq<char>)
    requires
        all_digits(s),
    ensures
        digits_val(s) >= 0,
    decreases s.len(),
{
    if s.len() > 0 {
        assert(all_digits(s.drop_last()));
        lemma_digits_val_nonneg(s.drop_last());
    }
}

/// Appending digits never shrinks the value: every prefix's value is at
/// most the whole sequence's.
proof fn lemma_digits_val_grows(s: Seq<char>, n: int)
    requires
        0 <= n <= s.len(),
        all_digits(s),
    ensures
        digits_val(s.subrange(0, n)) <= digits_val(s),
    decreases s.len() - n,
{
    if n == s.len() {
        assert(s.subrange(0, n) =~= s);
    } else {
        assert(s.subrange(0, n + 1).drop_last() =~= s.subrange(0, n));
        assert(all_digits(s.subrange(0, n)));
        lemma_digits_val_nonneg(s.subrange(0, n));
        assert(is_ascii_digit(s[n]));
        assert(digits_val(s.subrange(0, n + 1)) >= digits_val(s.subrange(0, n)));
        lemma_digits_val_grows(s, n + 1);
    }
}

/// Parses the digit run `s[from..to]` as a `u32`; `None` when the run is
/// empty, holds a non-digit, or overflows.
fn parse_digits(s: &str, from: usize, to: usize) -> (r: Option<u32>)
    requires
        from <= to <= s@.len(),
    ensures
        match r {
            Some(v) => {
                &&& from < to
                &&& all_digits(s@.subrange(from as int, to as int))
                &&& digits_val(s@.subrange(from as int, to as int)) == v
            },
            None => !(from < to && all_digits(s@.subrange(from as int, to as int)) && digits_val(
                s@.subrange(from as int, to as int),
            ) <= u32::MAX),
        },
{
    let ghost part = s@.subrange(from as int, to as int);
    if from == to {
        return None;
    }
    let mut acc: u64 = 0;
    let mut i: usize = from;
    while i < to
        invariant
            from <= i <= to <= s@.len(),
            part == s@.subrange(from as int, to as int),
            all_digits(part.subrange(0, i - from)),
            acc == digits_val(part.subrange(0, i - from)),
            acc <= u32::MAX as u64,
        decreases to - i,
    {
        let ch = s.get_char(i);
        proof {
            assert(part[i - from] == s@[i as int]);
        }
        if !(ch >= '0' && ch <= '9') {
            proof {
                assert(!is_ascii_digit(part[i - from]));
            }
            return None;
        }
        let d: u64 = ch as u64 - 48;
        let next: u64 = acc * 10 + d;
        proof {
            assert(part.subrange(0, i - from + 1).drop_last() =~= part.subrange(0, i - from));
            assert(part.subrange(0, i - from + 1).last() == part[i - from]);
            assert(next == digits_val(part.subrange(0, i - from + 1)));
        }
        if next > u32::MAX as u64 {
            proof {
                if all_digits(part) {
                    lemma_digits_val_grows(part, i - from + 1);
                }
            }
            return None;
        }
        acc = next;
        i = i + 1;
    }
    proof {
        assert(part.subrange(0, to - from) =~= part);
    }
    Some(acc as u32)
}

/// Parses a resolution argument of the form `<width>x<height>` (the
/// separator may also be `X`), e.g. `1920x1080`. Exactly one separator must
/// occur and both sides must be digit runs whose values fit a `u32`;
/// otherwise the result names the part that failed.
pub fn resolution_parser(s: &str) -> (r: Result<(u32, u32), String>)
    ensures
        match r {
            Ok(wh) => spec_parse_resolution(s@) == Some(wh),
            Err(_) => spec_parse_resolution(s@) is None,
        },
{
    let n = s.unicode_len();
    let mut sep: Option<usize> = None;
    let mut i: usize = 0;
    while i < n
        invariant
            i <= n,
            n == s@.len(),
            match sep {
                None => forall|j: int| 0 <= j < i ==> !is_res_separator(s@[j]),
                Some(p) => {
                    &&& p < i
                    &&& is_res_separator(s@[p as int])
                    &&& forall|j: int| 0 <= j < i && j != p ==> !is_res_separator(s@[j])
                },
            },
        decreases n - i,
    {
        let ch = s.get_char(i);
        if ch == 'x' || ch == 'X' {
            match sep {
                None => {
                    sep = Some(i);
                },
                Some(_) => {
                    proof {
                        assert(forall|q: int| !is_only_separator(s@, q));
                    }
                    return Err(
                        String::from_str(
                            "could not parse resolution string, expected format is <width>x<height>, e.g. 1920x1080",
                        ),
                    );
                },
            }
        }
        i = i + 1;
    }
    let p = match sep {
        Some(p) => p,
        None => {
            proof {
                assert(forall|q: int| !is_only_separator(s@, q));
            }
            return Err(
                String::from_str(
                    "could not parse resolution string, expected format is <width>x<height>, e.g. 1920x1080",
                ),
            );
        },
    };
    proof {
        assert(is_only_separator(s@, p as int));
        assert(the_separator(s@) == p as int) by {
            assert(exists|q: int| is_only_separator(s@, q));
        };
    }
    let width = match parse_digits(s, 0, p) {
        Some(width) => width,
        None => {
            return Err(String::from_str("could not parse resolution, width is not a number"));
        },
    };
    let height = match parse_digits(s, p + 1, n) {
        Some(height) => height,
        None => {
            return Err(String::from_str("could not parse resolution, height is not a number"));
        },
    };
    Ok((width, height))
}

} // verus!
