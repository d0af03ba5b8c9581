//! Reading attribute files of sysfs: the text that a read returns, cleaned and
//! converted. The reads themselves happen outside the library; these functions
//! take their outcome.

use vstd::prelude::*;
use crate::error::{IoFailure, SinfoError, SysfsError};
use crate::text;
use crate::text::{chars_of, copy_range, is_literal, parse_i64, parse_unsigned, starts_with, string_from, trim};

verus! {

/// The views of an optional string.
pub open spec fn opt_view(o: Option<String>) -> Option<Seq<char>> {
    match o {
        Some(s) => Some(s@),
        None => None,
    }
}

/// Values that firmware and drivers write when they have no real value.
pub open spec fn is_placeholder(t: Seq<char>) -> bool {
    ||| t.len() == 0
    ||| t == "N/A"@
    ||| t == "To Be Filled By O.E.M."@
    ||| t == "Default string"@
    ||| t == "Not Specified"@
}

/// The trimmed content of a file, unless it is empty or a placeholder.
pub open spec fn spec_read_string_optional(raw: Option<Seq<char>>) -> Option<Seq<char>> {
    match raw {
        Some(s) => if is_placeholder(text::spec_trim(s)) {
            None
        } else {
            Some(text::spec_trim(s))
        },
        None => None,
    }
}

/// A number in decimal, or in hexadecimal after `0x` or `0X`.
pub open spec fn spec_parse_int_flexible(s: Seq<char>) -> Option<nat> {
    if text::spec_starts_with(s, "0x"@) || text::spec_starts_with(s, "0X"@) {
        text::spec_parse_unsigned(s.skip(2), 16, u64::MAX as int)
    } else {
        text::spec_parse_unsigned(s, 10, u64::MAX as int)
    }
}

pub open spec fn spec_read_u64_optional(raw: Option<Seq<char>>) -> Option<u64> {
    match spec_read_string_optional(raw) {
        Some(t) => match spec_parse_int_flexible(t) {
            Some(v) => Some(v as u64),
            None => None,
        },
        None => None,
    }
}

pub open spec fn spec_read_u32_optional(raw: Option<Seq<char>>) -> Option<u32> {
    match spec_read_u64_optional(raw) {
        Some(v) => Some(v as u32),
        None => None,
    }
}

/// `source` is the sysfs error that the failed read `e` becomes.
pub open spec fn sysfs_read_error(e: IoFailure, source: SysfsError) -> bool {
    match e {
        IoFailure::NotFound(_) => source is NotFound,
        IoFailure::PermissionDenied(_) => source is PermissionDenied,
        IoFailure::Other(_) => source == SysfsError::Io(e),
    }
}

/// `r` is the error of a failed read of `path`.
pub open spec fn is_read_error(r: SinfoError, path: Seq<char>, e: IoFailure) -> bool {
    match r {
        SinfoError::Sysfs { path: p, source } => p@ == path && sysfs_read_error(e, source),
        _ => false,
    }
}

/// `r` is the error for the content `actual` of `path`, which does not parse
/// as an `expected`.
pub open spec fn is_parse_error(
    r: SinfoError,
    path: Seq<char>,
    expected: Seq<char>,
    actual: Seq<char>,
) -> bool {
    match r {
        SinfoError::Sysfs { path: p, source: SysfsError::Parse { expected: x, actual: a } } => {
            &&& p@ == path
            &&& x@ == expected
            &&& a@ == actual
        },
        _ => false,
    }
}

fn read_error(path: &str, e: IoFailure) -> (r: SinfoError)
    ensures
        is_read_error(r, path@, e),
{
    let source = match e {
        IoFailure::NotFound(_) => SysfsError::NotFound,
        IoFailure::PermissionDenied(_) => SysfsError::PermissionDenied,
        IoFailure::Other(_) => SysfsError::Io(e),
    };
    SinfoError::Sysfs { path: path.to_owned(), source }
}

/// The content of the file at `path`, trimmed, given what reading it returned.
pub fn read_string(path: &str, raw: Result<String, IoFailure>) -> (r: Result<String, SinfoError>)
    ensures
        match raw {
            Ok(s) => r matches Ok(t) && t@ == text::spec_trim(s@),
            Err(e) => r matches Err(x) && is_read_error(x, path@, e),
        },
{
    match raw {
        Ok(s) => {
            let cs = chars_of(s.as_str());
            let t = trim(cs.as_slice());
            Ok(string_from(t.as_slice()))
        },
        Err(e) => Err(read_error(path, e)),
    }
}

/// The content of the file at `path` as an unsigned number (decimal, or
/// hexadecimal after `0x`).
pub fn read_u64(path: &str, raw: Result<String, IoFailure>) -> (r: Result<u64, SinfoError>)
    ensures
        match raw {
            Ok(s) => match spec_parse_int_flexible(text::spec_trim(s@)) {
                Some(v) => r == Ok::<u64, SinfoError>(v as u64),
                None => r matches Err(x) && is_parse_error(x, path@, "u64"@, text::spec_trim(s@)),
            },
            Err(e) => r matches Err(x) && is_read_error(x, path@, e),
        },
{
    let s = match read_string(path, raw) {
        Ok(s) => s,
        Err(e) => return Err(e),
    };
    match parse_int_flexible(s.as_str()) {
        Some(v) => Ok(v),
        None => Err(
            SinfoError::Sysfs {
                path: path.to_owned(),
                source: SysfsError::Parse { expected: "u64", actual: s },
            },
        ),
    }
}

/// The content of the file at `path` as a signed decimal number.
pub fn read_i64(path: &str, raw: Result<String, IoFailure>) -> (r: Result<i64, SinfoError>)
    ensures
        match raw {
            Ok(s) => match text::spec_parse_i64(text::spec_trim(s@)) {
                Some(v) => r == Ok::<i64, SinfoError>(v as i64),
                None => r matches Err(x) && is_parse_error(x, path@, "i64"@, text::spec_trim(s@)),
            },
            Err(e) => r matches Err(x) && is_read_error(x, path@, e),
        },
{
    let s = match read_string(path, raw) {
        Ok(s) => s,
        Err(e) => return Err(e),
    };
    let cs = chars_of(s.as_str());
    match parse_i64(cs.as_slice()) {
        Some(v) => Ok(v),
        None => Err(
            SinfoError::Sysfs {
                path: path.to_owned(),
                source: SysfsError::Parse { expected: "i64", actual: s },
            },
        ),
    }
}

/// Whether the trimmed text `t` is empty or a placeholder.
pub fn placeholder(t: &[char]) -> (b: bool)
    ensures
        b == is_placeholder(t@),
{
    t.len() == 0 || is_literal(t, "N/A") || is_literal(t, "To Be Filled By O.E.M.") || is_literal(
        t,
        "Default string",
    ) || is_literal(t, "Not Specified")
}

/// The trimmed content of a file that was read (`raw`), or `None` when it
/// could not be read, is empty, or holds a placeholder.
pub fn read_string_optional(raw: Option<String>) -> (r: Option<String>)
    ensures
        opt_view(r) == spec_read_string_optional(opt_view(raw)),
{
    clean_optional(&raw)
}

/// `read_string_optional` on a borrowed read outcome.
pub fn clean_optional(raw: &Option<String>) -> (r: Option<String>)
    ensures
        opt_view(r) == spec_read_string_optional(opt_view(*raw)),
{
    match raw {
        Some(s) => {
            let cs = chars_of(s.as_str());
            let t = trim(cs.as_slice());
            if placeholder(t.as_slice()) {
                None
            } else {
                Some(string_from(t.as_slice()))
            }
        },
        None => None,
    }
}

/// `read_string_optional`, then a number in decimal or hexadecimal.
pub fn read_u64_optional(raw: Option<String>) -> (r: Option<u64>)
    ensures
        r == spec_read_u64_optional(opt_view(raw)),
{
    u64_of(&raw)
}

/// `read_u64_optional` on a borrowed read outcome.
pub fn u64_of(raw: &Option<String>) -> (r: Option<u64>)
    ensures
        r == spec_read_u64_optional(opt_view(*raw)),
{
    match clean_optional(raw) {
        Some(s) => parse_int_flexible(s.as_str()),
        None => None,
    }
}

/// `read_u64_optional`, keeping the low 32 bits.
pub fn read_u32_optional(raw: Option<String>) -> (r: Option<u32>)
    ensures
        r == spec_read_u32_optional(opt_view(raw)),
{
    match read_u64_optional(raw) {
        Some(v) => Some(v as u32),
        None => None,
    }
}

/// Parses `s` as decimal, or as hexadecimal after a `0x` or `0X` prefix.
pub fn parse_int_flexible(s: &str) -> (r: Option<u64>)
    ensures
        r == match spec_parse_int_flexible(s@) {
            Some(v) => Some(v as u64),
            None => None::<u64>,
        },
{
    let cs = chars_of(s);
    parse_int_flexible_chars(cs.as_slice())
}

pub fn parse_int_flexible_chars(cs: &[char]) -> (r: Option<u64>)
    ensures
        r == match spec_parse_int_flexible(cs@) {
            Some(v) => Some(v as u64),
            None => None::<u64>,
        },
{
    proof {
        reveal_strlit("0x");
        reveal_strlit("0X");
    }
    let lower = chars_of("0x");
    let upper = chars_of("0X");
    if starts_with(cs, lower.as_slice()) || starts_with(cs, upper.as_slice()) {
        let hex = copy_range(cs, 2, cs.len());
        assert(hex@ =~= cs@.skip(2));
        parse_unsigned(hex.as_slice(), 16, u64::MAX)
    } else {
        parse_unsigned(cs, 10, u64::MAX)
    }
}

/// Reading a number through the error-reporting reader and through the
/// optional reader agree: the first succeeds with `v` exactly when the second
/// gives `v`, since no placeholder is a number.
pub proof fn lemma_read_u64_agrees(s: Seq<char>)
    ensures
        spec_parse_int_flexible(text::spec_trim(s)) matches Some(v) ==> spec_read_u64_optional(Some(s))
            == Some(v as u64),
        spec_parse_int_flexible(text::spec_trim(s)) is None ==> spec_read_u64_optional(Some(s)) is None,
{
    let t = text::spec_trim(s);
    if is_placeholder(t) {
        lemma_placeholder_not_number(t);
    }
}

/// No placeholder value reads as a number.
pub proof fn lemma_placeholder_not_number(t: Seq<char>)
    requires
        is_placeholder(t),
    ensures
        spec_parse_int_flexible(t) is None,
{
    reveal_strlit("N/A");
    reveal_strlit("To Be Filled By O.E.M.");
    reveal_strlit("Default string");
    reveal_strlit("Not Specified");
    reveal_strlit("0x");
    reveal_strlit("0X");
    if t.len() > 0 {
        assert(!text::spec_starts_with(t, "0x"@) && !text::spec_starts_with(t, "0X"@)) by {
            assert(t[0] != '0');
            if t.len() >= 2 {
                assert(t.take(2)[0] == t[0]);
            }
        }
        assert(t[0] != '+');
        assert(text::digit_val(t[0], 10) < 0);
    }
}

} // verus!
