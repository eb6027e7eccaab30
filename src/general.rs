//! The general commands: colour arguments, the usage report and the ping
//! reply.
use crate::date::digit_char;
use vstd::prelude::*;

verus! {

/// The prefixes that mark a hexadecimal colour code, in the order they are
/// tried.
pub open spec fn color_patterns() -> Seq<Seq<char>> {
    seq!["0x"@, "#"@]
}

/// The colour prefixes that `code` starts with, in order.
pub open spec fn matching_patterns(code: Seq<char>) -> Seq<Seq<char>> {
    color_patterns().filter(|p: Seq<char>| p.is_prefix_of(code))
}

/// Whether `p` occurs in `s` at `at`.
fn matches_at(s: &str, p: &str, at: usize) -> (r: bool)
    requires
        at <= s@.len(),
    ensures
        r == p@.is_prefix_of(s@.subrange(at as int, s@.len() as int)),
{
    let n = p.unicode_len();
    let len = s.unicode_len();
    let ghost rest = s@.subrange(at as int, s@.len() as int);
    if n > len - at {
        return false;
    }
    let mut i: usize = 0;
    while i < n
        invariant
            n == p@.len(),
            len == s@.len(),
            at + n <= len,
            rest == s@.subrange(at as int, s@.len() as int),
            i <= n,
            forall|j: int| 0 <= j < i ==> rest[j] == p@[j],
        decreases n - i,
    {
        if s.get_char(at + i) != p.get_char(i) {
            assert(rest[i as int] != p@[i as int]);
            return false;
        }
        i = i + 1;
    }
    assert(rest.subrange(0, n as int) =~= p@);
    true
}

/// Whether `s` starts with `p`.
fn starts_with(s: &str, p: &str) -> (r: bool)
    ensures
        r == p@.is_prefix_of(s@),
{
    let r = matches_at(s, p, 0);
    assert(s@.subrange(0, s@.len() as int) =~= s@);
    r
}

/// The colour prefixes that `color_code` starts with.
pub fn find_patterns(color_code: &str) -> (r: Vec<&'static str>)
    ensures
        r@.map_values(|p: &str| p@) == matching_patterns(color_code@),
{
    let mut found: Vec<&'static str> = Vec::new();
    let hex = "0x";
    let hash = "#";
    if starts_with(color_code, hex) {
        found.push(hex);
    }
    if starts_with(color_code, hash) {
        found.push(hash);
    }
    proof {
        reveal_with_fuel(Seq::filter, 3);
        let ps = color_patterns();
        assert(ps.drop_last() =~= seq!["0x"@]);
        assert(ps.drop_last().drop_last() =~= Seq::<Seq<char>>::empty());
        assert(found@.map_values(|p: &str| p@) =~= matching_patterns(color_code@));
    }
    found
}

/// `s` without every leading repetition of `p`.
pub open spec fn strip_repeated(s: Seq<char>, p: Seq<char>) -> Seq<char>
    decreases s.len(),
{
    if p.len() > 0 && p.is_prefix_of(s) {
        strip_repeated(s.subrange(p.len() as int, s.len() as int), p)
    } else {
        s
    }
}

/// The value of a hexadecimal digit of either case.
pub open spec fn hex_digit(c: char) -> Option<int> {
    if '0' <= c && c <= '9' {
        Some(c as int - '0' as int)
    } else if 'a' <= c && c <= 'f' {
        Some(c as int - 'a' as int + 10)
    } else if 'A' <= c && c <= 'F' {
        Some(c as int - 'A' as int + 10)
    } else {
        None
    }
}

/// The value of a run of hexadecimal digits.
pub open spec fn hex_magnitude(s: Seq<char>) -> Option<int>
    decreases s.len(),
{
    if s.len() == 0 {
        Some(0)
    } else {
        match (hex_magnitude(s.drop_last()), hex_digit(s.last())) {
            (Some(v), Some(d)) => Some(16 * v + d),
            _ => None,
        }
    }
}

/// A hexadecimal `i32`: an optional sign, then at least one digit, and a
/// value in range.
pub open spec fn hex_i32(s: Seq<char>) -> Option<int> {
    let neg = s.len() > 0 && s[0] == '-';
    let digits = if s.len() > 0 && (s[0] == '-' || s[0] == '+') {
        s.drop_first()
    } else {
        s
    };
    if digits.len() == 0 {
        None
    } else {
        match hex_magnitude(digits) {
            Some(v) => {
                let x = if neg {
                    -v
                } else {
                    v
                };
                if i32::MIN <= x <= i32::MAX {
                    Some(x)
                } else {
                    None
                }
            },
            None => None,
        }
    }
}

/// Relies on std's `i32::from_str_radix` with radix 16: an optional `+` or
/// `-`, then one or more digits `0-9`, `a-f`, `A-F`, and nothing else, whose
/// value fits an `i32`; an error otherwise.
#[verifier::external_body]
fn parse_hex_i32(src: &str) -> (r: Option<i32>)
    ensures
        match r {
            Some(v) => hex_i32(src@) == Some(v as int),
            None => hex_i32(src@) is None,
        },
{
    match i32::from_str_radix(src, 16) {
        Ok(v) => Some(v),
        Err(_) => None,
    }
}

/// Why a colour argument was refused.
#[derive(Clone, Copy, Debug, PartialEq, Eq, Structural)]
pub enum ColorError {
    /// The argument starts with neither `0x` nor `#`.
    NoPrefix,
    /// What follows the prefix is not a hexadecimal `i32`.
    NotHex,
}

/// What `parse_color` gives for `code`.
pub open spec fn color_of(code: Seq<char>) -> Result<int, ColorError> {
    let found = matching_patterns(code);
    if found.len() == 0 {
        Err(ColorError::NoPrefix)
    } else {
        match hex_i32(strip_repeated(code, found[0])) {
            Some(v) => Ok(v),
            None => Err(ColorError::NotHex),
        }
    }
}

/// `s` without every leading repetition of `p`.
fn trim_start_matches<'a>(s: &'a str, p: &str) -> (r: &'a str)
    ensures
        r@ == strip_repeated(s@, p@),
{
    let n = p.unicode_len();
    let len = s.unicode_len();
    if n == 0 {
        return s;
    }
    let mut i: usize = 0;
    assert(s@.subrange(0, len as int) =~= s@);
    while i <= len && matches_at(s, p, i)
        invariant
            n == p@.len(),
            n > 0,
            len == s@.len(),
            i <= len,
            strip_repeated(s@, p@) == strip_repeated(s@.subrange(i as int, len as int), p@),
        decreases len - i,
    {
        let ghost rest = s@.subrange(i as int, len as int);
        assert(rest.subrange(n as int, rest.len() as int) =~= s@.subrange((i + n) as int, len as int));
        i = i + n;
    }
    s.substring_char(i, len)
}

/// Reads a colour argument: `0x` or `#`, then a hexadecimal `i32`. Every
/// leading repetition of the prefix is skipped, as in `#ff` and `##ff`.
pub fn parse_color(code: &str) -> (r: Result<i32, ColorError>)
    ensures
        match r {
            Ok(v) => color_of(code@) == Ok::<int, ColorError>(v as int),
            Err(e) => color_of(code@) == Err::<int, ColorError>(e),
        },
{
    let found = find_patterns(code);
    if found.len() == 0 {
        return Err(ColorError::NoPrefix);
    }
    let pattern = found[0];
    assert(pattern@ == matching_patterns(code@)[0]);
    let digits = trim_start_matches(code, pattern);
    match parse_hex_i32(digits) {
        Some(v) => Ok(v),
        None => Err(ColorError::NotHex),
    }
}

/// The reply to a plain message: `Pog!` to exactly `!ping`.
pub fn ping_reply(content: &str) -> (r: Option<String>)
    ensures
        match r {
            Some(t) => content@ == "!ping"@ && t@ == "Pog!"@,
            None => content@ != "!ping"@,
        },
{
    let text = String::from_str(content);
    if text == String::from_str("!ping") {
        Some(String::from_str("Pog!"))
    } else {
        None
    }
}

/// `n` in decimal, without leading zeros.
pub open spec fn decimal_text(n: nat) -> Seq<char>
    decreases n,
{
    if n < 10 {
        seq![digit_char(n as int)]
    } else {
        decimal_text(n / 10) + seq![digit_char((n % 10) as int)]
    }
}

/// Relies on the `Display` of `u64` (through `to_string`): the number in
/// decimal, without sign or leading zeros.
#[verifier::external_body]
fn decimal(n: u64) -> (r: String)
    ensures
        r@ == decimal_text(n as nat),
{
    n.to_string()
}

/// The report's lines for `entries`, one `- name: count` line each.
pub open spec fn usage_lines(entries: Seq<(Seq<char>, u64)>) -> Seq<char>
    decreases entries.len(),
{
    if entries.len() == 0 {
        Seq::empty()
    } else {
        usage_lines(entries.drop_last()) + "- "@ + entries.last().0 + ": "@ + decimal_text(
            entries.last().1 as nat,
        ) + "\n"@
    }
}

/// The usage report: a heading, then each command with how often it ran.
pub fn usage_report(entries: &Vec<(String, u64)>) -> (r: String)
    ensures
        r@ == "Commands used:\n"@ + usage_lines(entries@.map_values(|e: (String, u64)| (e.0@, e.1))),
{
    let ghost view = entries@.map_values(|e: (String, u64)| (e.0@, e.1));
    let mut text = String::from_str("Commands used:\n");
    let mut i: usize = 0;
    while i < entries.len()
        invariant
            i <= entries@.len(),
            view == entries@.map_values(|e: (String, u64)| (e.0@, e.1)),
            text@ == "Commands used:\n"@ + usage_lines(view.subrange(0, i as int)),
        decreases entries@.len() - i,
    {
        let (name, count) = &entries[i];
        text.append("- ");
        text.append(name.as_str());
        text.append(": ");
        let shown = decimal(*count);
        text.append(shown.as_str());
        text.append("\n");
        proof {
            let next = view.subrange(0, i + 1);
            assert(next.drop_last() =~= view.subrange(0, i as int));
            assert(next.last() == view[i as int]);
        }
        i = i + 1;
    }
    assert(view.subrange(0, i as int) =~= view);
    text
}

} // verus!
