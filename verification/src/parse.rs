//! Reading one line of structured text back into a wire value.
//!
//! The grammar is the standard one for value trees: whitespace between
//! tokens, quoted text with backslash escapes (including `\uXXXX` forms and
//! surrogate pairs), integers with an optional minus sign and no leading
//! zero, arrays and objects. Fractions, exponents and integers outside the
//! signed 64-bit range are not accepted; a line that fails to parse is
//! reported as a decode failure and never as a wrong value.

use vstd::prelude::*;
use crate::json::JsonData;

verus! {

/// Whitespace between tokens.
pub open spec fn is_ws(c: char) -> bool {
    c == ' ' || c == '\t' || c == '\n' || c == '\r'
}

/// A decimal digit.
pub open spec fn is_digit(c: char) -> bool {
    48 <= (c as u32) <= 57
}

/// The value of a decimal digit.
pub open spec fn digit_val(c: char) -> int {
    (c as u32) - 48
}

/// The value of a hexadecimal digit, or -1 for any other character.
pub open spec fn hex_val(c: char) -> int {
    if is_digit(c) {
        digit_val(c)
    } else if 97 <= (c as u32) <= 102 {
        (c as u32) - 87
    } else if 65 <= (c as u32) <= 70 {
        (c as u32) - 55
    } else {
        -1
    }
}

/// The first position at or after `i` holding no whitespace.
pub open spec fn skip_ws(s: Seq<char>, i: int) -> int
    decreases s.len() - i,
{
    if 0 <= i < s.len() && is_ws(s[i]) {
        skip_ws(s, i + 1)
    } else {
        i
    }
}

pub proof fn lemma_skip_ws_bounds(s: Seq<char>, i: int)
    requires
        0 <= i <= s.len(),
    ensures
        i <= skip_ws(s, i) <= s.len(),
    decreases s.len() - i,
{
    if i < s.len() && is_ws(s[i]) {
        lemma_skip_ws_bounds(s, i + 1);
    }
}

/// The end of the run of decimal digits that starts at `i`.
pub open spec fn scan_digits(s: Seq<char>, i: int) -> int
    decreases s.len() - i,
{
    if 0 <= i < s.len() && is_digit(s[i]) {
        scan_digits(s, i + 1)
    } else {
        i
    }
}

pub proof fn lemma_scan_digits_bounds(s: Seq<char>, i: int)
    requires
        0 <= i <= s.len(),
    ensures
        i <= scan_digits(s, i) <= s.len(),
    decreases s.len() - i,
{
    if i < s.len() && is_digit(s[i]) {
        lemma_scan_digits_bounds(s, i + 1);
    }
}

/// The number written by the digits of `s` between `i` and `j`.
pub open spec fn digits_value(s: Seq<char>, i: int, j: int) -> int
    decreases j - i,
{
    if j <= i {
        0
    } else {
        digits_value(s, i, j - 1) * 10 + digit_val(s[j - 1])
    }
}

/// The four hexadecimal digits starting at `i`, as one number, if they
/// are there.
pub open spec fn hex4(s: Seq<char>, i: int) -> Option<int> {
    if 0 <= i && i + 4 <= s.len() && hex_val(s[i]) >= 0 && hex_val(s[i + 1]) >= 0 && hex_val(
        s[i + 2],
    ) >= 0 && hex_val(s[i + 3]) >= 0 {
        Some(4096 * hex_val(s[i]) + 256 * hex_val(s[i + 1]) + 16 * hex_val(s[i + 2]) + hex_val(
            s[i + 3],
        ))
    } else {
        None
    }
}

/// Reads one backslash escape whose backslash stands at `i`; yields the
/// character it denotes and the position after the escape. A `\uXXXX`
/// escape holding a high surrogate must be followed by one holding a low
/// surrogate; the pair denotes one character beyond the basic plane.
pub open spec fn parse_escape(s: Seq<char>, i: int) -> Option<(char, int)> {
    if i + 1 >= s.len() {
        None
    } else {
        let c = s[i + 1];
        if c == '"' { Some(('"', i + 2)) }
        else if c == '\\' { Some(('\\', i + 2)) }
        else if c == '/' { Some(('/', i + 2)) }
        else if c == 'b' { Some(('\u{0008}', i + 2)) }
        else if c == 'f' { Some(('\u{000C}', i + 2)) }
        else if c == 'n' { Some(('\n', i + 2)) }
        else if c == 'r' { Some(('\r', i + 2)) }
        else if c == 't' { Some(('\t', i + 2)) }
        else if c == 'u' {
            match hex4(s, i + 2) {
                None => None,
                Some(code) => {
                    if 0xD800 <= code < 0xDC00 {
                        if i + 8 <= s.len() && s[i + 6] == '\\' && s[i + 7] == 'u' {
                            match hex4(s, i + 8) {
                                None => None,
                                Some(low) => {
                                    if 0xDC00 <= low < 0xE000 {
                                        let code2 = 0x10000 + (code - 0xD800) * 0x400 + (low
                                            - 0xDC00);
                                        Some(((code2 as u32) as char, i + 12))
                                    } else {
                                        None
                                    }
                                },
                            }
                        } else {
                            None
                        }
                    } else if 0xDC00 <= code < 0xE000 {
                        None
                    } else {
                        Some(((code as u32) as char, i + 6))
                    }
                },
            }
        }
        else { None }
    }
}

/// Reads the body of a quoted text from `i` (just after the opening
/// quote) to its closing quote; yields the denoted characters and the
/// position after the closing quote.
pub open spec fn parse_string_body(s: Seq<char>, i: int) -> Option<(Seq<char>, int)>
    decreases s.len() - i,
{
    if i < 0 || i >= s.len() {
        None
    } else {
        let c = s[i];
        if c == '"' {
            Some((Seq::empty(), i + 1))
        } else if c == '\\' {
            match parse_escape(s, i) {
                None => None,
                Some((ch, j)) => {
                    if i < j <= s.len() {
                        match parse_string_body(s, j) {
                            None => None,
                            Some((rest, k)) => Some((seq![ch] + rest, k)),
                        }
                    } else {
                        None
                    }
                },
            }
        } else if (c as u32) < 32 {
            None
        } else {
            match parse_string_body(s, i + 1) {
                None => None,
                Some((rest, k)) => Some((seq![c] + rest, k)),
            }
        }
    }
}

/// Reads an integer whose first character (a minus sign or a digit)
/// stands at `i`. A minus sign must be followed by a digit, a leading
/// zero admits no further digit, and the value must fit a signed 64-bit
/// machine word.
pub open spec fn parse_number(s: Seq<char>, i: int) -> Option<(JsonData, int)> {
    if !(0 <= i < s.len()) {
        None
    } else {
        let neg = s[i] == '-';
        let d0 = if neg { i + 1 } else { i };
        if !(d0 < s.len() && is_digit(s[d0])) {
            None
        } else {
            let end = scan_digits(s, d0);
            if s[d0] == '0' && end > d0 + 1 {
                None
            } else {
                let m = digits_value(s, d0, end);
                let n: int = if neg { -m } else { m };
                if n < i64::MIN || n > i64::MAX {
                    None
                } else {
                    Some((JsonData::Number(n), end))
                }
            }
        }
    }
}

/// Reads one value whose first token starts at or after `i`, skipping
/// leading whitespace; yields the value and the position just after it.
pub open spec fn parse_value(s: Seq<char>, i: int) -> Option<(JsonData, int)>
    decreases s.len() - i, 0int,
{
    if i < 0 || i > s.len() {
        None
    } else {
        let j = skip_ws(s, i);
        if j < i || j >= s.len() {
            None
        } else {
            let c = s[j];
            if c == 'n' {
                if j + 4 <= s.len() && s[j + 1] == 'u' && s[j + 2] == 'l' && s[j + 3] == 'l' {
                    Some((JsonData::Null, j + 4))
                } else {
                    None
                }
            } else if c == 't' {
                if j + 4 <= s.len() && s[j + 1] == 'r' && s[j + 2] == 'u' && s[j + 3] == 'e' {
                    Some((JsonData::Bool(true), j + 4))
                } else {
                    None
                }
            } else if c == 'f' {
                if j + 5 <= s.len() && s[j + 1] == 'a' && s[j + 2] == 'l' && s[j + 3] == 's' && s[j
                    + 4] == 'e' {
                    Some((JsonData::Bool(false), j + 5))
                } else {
                    None
                }
            } else if c == '"' {
                match parse_string_body(s, j + 1) {
                    None => None,
                    Some((txt, k)) => Some((JsonData::Text(txt), k)),
                }
            } else if c == '-' || is_digit(c) {
                parse_number(s, j)
            } else if c == '[' {
                let j2 = skip_ws(s, j + 1);
                if j2 < s.len() && s[j2] == ']' {
                    Some((JsonData::Array(Seq::empty()), j2 + 1))
                } else {
                    match parse_items(s, j + 1) {
                        None => None,
                        Some((elems, k)) => Some((JsonData::Array(elems), k)),
                    }
                }
            } else if c == '{' {
                let j2 = skip_ws(s, j + 1);
                if j2 < s.len() && s[j2] == '}' {
                    Some((JsonData::Object(Seq::empty()), j2 + 1))
                } else {
                    match parse_entries(s, j + 1) {
                        None => None,
                        Some((members, k)) => Some((JsonData::Object(members), k)),
                    }
                }
            } else {
                None
            }
        }
    }
}

/// Reads the elements of a non-empty array from `i` (just after the
/// opening bracket or a comma) through the closing bracket.
pub open spec fn parse_items(s: Seq<char>, i: int) -> Option<(Seq<JsonData>, int)>
    decreases s.len() - i, 1int,
{
    match parse_value(s, i) {
        None => None,
        Some((d, j)) => {
            if i < j <= s.len() {
                let m = skip_ws(s, j);
                if m < j || m >= s.len() {
                    None
                } else if s[m] == ',' {
                    match parse_items(s, m + 1) {
                        None => None,
                        Some((rest, k)) => Some((seq![d] + rest, k)),
                    }
                } else if s[m] == ']' {
                    Some((seq![d], m + 1))
                } else {
                    None
                }
            } else {
                None
            }
        },
    }
}

/// Reads the members of a non-empty object from `i` (just after the
/// opening brace or a comma) through the closing brace.
pub open spec fn parse_entries(s: Seq<char>, i: int) -> Option<(Seq<(Seq<char>, JsonData)>, int)>
    decreases s.len() - i, 1int,
{
    if i < 0 || i > s.len() {
        None
    } else {
        let j = skip_ws(s, i);
        if j < i || j >= s.len() || s[j] != '"' {
            None
        } else {
            match parse_string_body(s, j + 1) {
                None => None,
                Some((key, k1)) => {
                    if j < k1 <= s.len() {
                        let m = skip_ws(s, k1);
                        if m < k1 || m >= s.len() || s[m] != ':' {
                            None
                        } else {
                            match parse_value(s, m + 1) {
                                None => None,
                                Some((d, k2)) => {
                                    if m < k2 <= s.len() {
                                        let m2 = skip_ws(s, k2);
                                        if m2 < k2 || m2 >= s.len() {
                                            None
                                        } else if s[m2] == ',' {
                                            match parse_entries(s, m2 + 1) {
                                                None => None,
                                                Some((rest, k)) => Some(
                                                    (seq![(key, d)] + rest, k),
                                                ),
                                            }
                                        } else if s[m2] == '}' {
                                            Some((seq![(key, d)], m2 + 1))
                                        } else {
                                            None
                                        }
                                    } else {
                                        None
                                    }
                                },
                            }
                        }
                    } else {
                        None
                    }
                },
            }
        }
    }
}

/// Reads a whole line as one value: one value surrounded by optional
/// whitespace and nothing else.
pub open spec fn parse_json(s: Seq<char>) -> Option<JsonData> {
    match parse_value(s, 0) {
        None => None,
        Some((d, j)) => {
            if 0 <= j <= s.len() && skip_ws(s, j) == s.len() {
                Some(d)
            } else {
                None
            }
        },
    }
}

} // verus!
