//! The executable reader for the wire grammar, proved to agree with the
//! grammar's definition in `parse` on every input.

use vstd::prelude::*;
use crate::json::{JsonValue, data_of, data_of_seq, data_of_members};
use crate::parse::{
    is_ws, is_digit, hex_val, skip_ws, scan_digits, digits_value, hex4, parse_escape,
    parse_string_body, parse_number, parse_value, parse_items, parse_entries, parse_json,
};
use crate::text::{string_from_chars, chars_of};

verus! {

broadcast use vstd::utf8::char_u32_cast;

fn ws_c(c: char) -> (r: bool)
    ensures
        r == is_ws(c),
{
    c == ' ' || c == '\t' || c == '\n' || c == '\r'
}

fn digit_c(c: char) -> (r: bool)
    ensures
        r == is_digit(c),
{
    let u = c as u32;
    48 <= u && u <= 57
}

fn hexv_c(c: char) -> (v: i64)
    ensures
        v as int == hex_val(c),
{
    let u = c as u32;
    if 48 <= u && u <= 57 {
        (u - 48) as i64
    } else if 97 <= u && u <= 102 {
        (u - 87) as i64
    } else if 65 <= u && u <= 70 {
        (u - 55) as i64
    } else {
        -1
    }
}

fn d_skip_ws(s: &Vec<char>, i: usize) -> (j: usize)
    requires
        i <= s.len(),
    ensures
        j as int == skip_ws(s@, i as int),
        i <= j <= s.len(),
{
    let mut j = i;
    while j < s.len() && ws_c(s[j])
        invariant
            i <= j <= s.len(),
            skip_ws(s@, i as int) == skip_ws(s@, j as int),
        decreases s.len() - j,
    {
        j = j + 1;
    }
    j
}

fn d_hex4(s: &Vec<char>, i: usize) -> (r: Option<u32>)
    requires
        i <= s.len(),
    ensures
        match r {
            None => hex4(s@, i as int) is None,
            Some(v) => hex4(s@, i as int) == Some(v as int) && v < 0x10000,
        },
{
    if s.len() - i < 4 {
        return None;
    }
    let h0 = hexv_c(s[i]);
    let h1 = hexv_c(s[i + 1]);
    let h2 = hexv_c(s[i + 2]);
    let h3 = hexv_c(s[i + 3]);
    if h0 < 0 || h1 < 0 || h2 < 0 || h3 < 0 {
        return None;
    }
    let v: i64 = 4096 * h0 + 256 * h1 + 16 * h2 + h3;
    Some(v as u32)
}

#[verifier::rlimit(60)]
fn d_escape(s: &Vec<char>, i: usize) -> (r: Option<(char, usize)>)
    requires
        i <= s.len(),
    ensures
        match r {
            None => parse_escape(s@, i as int) is None,
            Some((c, j)) => parse_escape(s@, i as int) == Some((c, j as int)) && i < j <= s.len(),
        },
{
    if s.len() - i < 2 {
        return None;
    }
    let c = s[i + 1];
    if c == '"' {
        Some(('"', i + 2))
    } else if c == '\\' {
        Some(('\\', i + 2))
    } else if c == '/' {
        Some(('/', i + 2))
    } else if c == 'b' {
        Some(('\u{0008}', i + 2))
    } else if c == 'f' {
        Some(('\u{000C}', i + 2))
    } else if c == 'n' {
        Some(('\n', i + 2))
    } else if c == 'r' {
        Some(('\r', i + 2))
    } else if c == 't' {
        Some(('\t', i + 2))
    } else if c == 'u' {
        match d_hex4(s, i + 2) {
            None => None,
            Some(code) => {
                if 0xD800 <= code && code < 0xDC00 {
                    if s.len() - i >= 8 && s[i + 6] == '\\' && s[i + 7] == 'u' {
                        match d_hex4(s, i + 8) {
                            None => {
                                assert(parse_escape(s@, i as int) is None);
                                None
                            },
                            Some(low) => {
                                if 0xDC00 <= low && low < 0xE000 {
                                    let code2: u32 = 0x10000 + (code - 0xD800) * 0x400 + (low
                                        - 0xDC00);
                                    match char::from_u32(code2) {
                                        Some(ch) => {
                                            proof {
                                                vstd::utf8::char_u32_cast(ch, code2);
                                            }
                                            Some((ch, i + 12))
                                        },
                                        None => {
                                            assert(false);
                                            None
                                        },
                                    }
                                } else {
                                    None
                                }
                            },
                        }
                    } else {
                        None
                    }
                } else if 0xDC00 <= code && code < 0xE000 {
                    None
                } else {
                    match char::from_u32(code) {
                        Some(ch) => {
                            proof {
                                vstd::utf8::char_u32_cast(ch, code);
                            }
                            Some((ch, i + 6))
                        },
                        None => {
                            assert(false);
                            None
                        },
                    }
                }
            },
        }
    } else {
        None
    }
}

fn d_string_body(s: &Vec<char>, i: usize) -> (r: Option<(Vec<char>, usize)>)
    requires
        i <= s.len(),
    ensures
        match r {
            None => parse_string_body(s@, i as int) is None,
            Some((cs, k)) => parse_string_body(s@, i as int) == Some((cs@, k as int)) && i < k
                <= s.len(),
        },
    decreases s.len() - i,
{
    if i >= s.len() {
        return None;
    }
    let c = s[i];
    if c == '"' {
        let cs: Vec<char> = Vec::new();
        assert(cs@ =~= Seq::<char>::empty());
        Some((cs, i + 1))
    } else if c == '\\' {
        match d_escape(s, i) {
            None => None,
            Some((ch, j)) => {
                match d_string_body(s, j) {
                    None => None,
                    Some((rest, k)) => {
                        let ghost tail = rest@;
                        let mut cs = rest;
                        cs.insert(0, ch);
                        assert(cs@ =~= seq![ch] + tail);
                        Some((cs, k))
                    },
                }
            },
        }
    } else if (c as u32) < 32 {
        None
    } else {
        match d_string_body(s, i + 1) {
            None => None,
            Some((rest, k)) => {
                let ghost tail = rest@;
                let mut cs = rest;
                cs.insert(0, c);
                assert(cs@ =~= seq![c] + tail);
                Some((cs, k))
            },
        }
    }
}

proof fn lemma_digits_value_nonneg(s: Seq<char>, i: int, j: int)
    requires
        forall|k: int| i <= k < j ==> is_digit(#[trigger] s[k]),
    ensures
        digits_value(s, i, j) >= 0,
    decreases j - i,
{
    if j > i {
        lemma_digits_value_nonneg(s, i, j - 1);
    }
}

proof fn lemma_digits_value_mono(s: Seq<char>, i: int, j1: int, j2: int)
    requires
        i <= j1 <= j2,
        forall|k: int| i <= k < j2 ==> is_digit(#[trigger] s[k]),
    ensures
        digits_value(s, i, j2) >= digits_value(s, i, j1),
    decreases j2 - j1,
{
    if j2 > j1 {
        lemma_digits_value_mono(s, i, j1, j2 - 1);
        lemma_digits_value_nonneg(s, i, j2 - 1);
    }
}

fn d_number(s: &Vec<char>, i: usize) -> (r: Option<(JsonValue, usize)>)
    requires
        i <= s.len(),
    ensures
        match r {
            None => parse_number(s@, i as int) is None,
            Some((v, j)) => parse_number(s@, i as int) == Some((v@, j as int)) && i < j <= s.len(),
        },
{
    if i >= s.len() {
        return None;
    }
    let neg = s[i] == '-';
    let d0 = if neg { i + 1 } else { i };
    if !(d0 < s.len() && digit_c(s[d0])) {
        return None;
    }
    let mut end = d0;
    while end < s.len() && digit_c(s[end])
        invariant
            d0 <= end <= s.len(),
            scan_digits(s@, d0 as int) == scan_digits(s@, end as int),
            forall|k: int| d0 <= k < end ==> is_digit(#[trigger] s@[k]),
        decreases s.len() - end,
    {
        end = end + 1;
    }
    assert(scan_digits(s@, d0 as int) == end as int);
    if s[d0] == '0' && end > d0 + 1 {
        return None;
    }
    let limit: u64 = if neg { 9223372036854775808 } else { 9223372036854775807 };
    let mut acc: u64 = 0;
    let mut k = d0;
    while k < end
        invariant
            d0 <= k <= end <= s.len(),
            acc as int == digits_value(s@, d0 as int, k as int),
            acc <= limit,
            limit == if neg { 9223372036854775808u64 } else { 9223372036854775807u64 },
            forall|q: int| d0 <= q < end ==> is_digit(#[trigger] s@[q]),
            end as int == scan_digits(s@, d0 as int),
            parse_number(s@, i as int) == (if digits_value(s@, d0 as int, end as int) > limit as int {
                Option::<(crate::json::JsonData, int)>::None
            } else {
                parse_number(s@, i as int)
            }),
        decreases end - k,
    {
        let dv: u64 = ((s[k] as u32) - 48) as u64;
        let wide: u128 = (acc as u128) * 10 + (dv as u128);
        if wide > limit as u128 {
            proof {
                assert(digits_value(s@, d0 as int, k as int + 1) == acc as int * 10 + dv as int);
                lemma_digits_value_mono(s@, d0 as int, k as int + 1, end as int);
            }
            return None;
        }
        acc = wide as u64;
        k = k + 1;
    }
    proof {
        lemma_digits_value_nonneg(s@, d0 as int, end as int);
    }
    let v: i64 = if neg {
        if acc == 9223372036854775808 {
            i64::MIN
        } else {
            -(acc as i64)
        }
    } else {
        acc as i64
    };
    Some((JsonValue::Number(v), end))
}

fn d_value(s: &Vec<char>, i: usize) -> (r: Option<(JsonValue, usize)>)
    requires
        i <= s.len(),
    ensures
        match r {
            None => parse_value(s@, i as int) is None,
            Some((v, j)) => parse_value(s@, i as int) == Some((v@, j as int)) && i < j <= s.len(),
        },
    decreases s.len() - i, 0int,
{
    let j = d_skip_ws(s, i);
    if j >= s.len() {
        return None;
    }
    let c = s[j];
    if c == 'n' {
        if s.len() - j >= 4 && s[j + 1] == 'u' && s[j + 2] == 'l' && s[j + 3] == 'l' {
            Some((JsonValue::Null, j + 4))
        } else {
            None
        }
    } else if c == 't' {
        if s.len() - j >= 4 && s[j + 1] == 'r' && s[j + 2] == 'u' && s[j + 3] == 'e' {
            Some((JsonValue::Bool(true), j + 4))
        } else {
            None
        }
    } else if c == 'f' {
        if s.len() - j >= 5 && s[j + 1] == 'a' && s[j + 2] == 'l' && s[j + 3] == 's' && s[j + 4]
            == 'e' {
            Some((JsonValue::Bool(false), j + 5))
        } else {
            None
        }
    } else if c == '"' {
        match d_string_body(s, j + 1) {
            None => None,
            Some((cs, k)) => {
                let txt = string_from_chars(&cs);
                Some((JsonValue::Text(txt), k))
            },
        }
    } else if c == '-' || digit_c(c) {
        d_number(s, j)
    } else if c == '[' {
        let j2 = d_skip_ws(s, j + 1);
        if j2 < s.len() && s[j2] == ']' {
            let elems: Vec<JsonValue> = Vec::new();
            assert(data_of_seq(elems@) =~= Seq::<crate::json::JsonData>::empty());
            Some((JsonValue::Array(elems), j2 + 1))
        } else {
            match d_items(s, j + 1) {
                None => None,
                Some((elems, k)) => Some((JsonValue::Array(elems), k)),
            }
        }
    } else if c == '{' {
        let j2 = d_skip_ws(s, j + 1);
        if j2 < s.len() && s[j2] == '}' {
            let members: Vec<(String, JsonValue)> = Vec::new();
            assert(data_of_members(members@) =~= Seq::<(Seq<char>, crate::json::JsonData)>::empty());
            Some((JsonValue::Object(members), j2 + 1))
        } else {
            match d_entries(s, j + 1) {
                None => None,
                Some((members, k)) => Some((JsonValue::Object(members), k)),
            }
        }
    } else {
        None
    }
}

fn d_items(s: &Vec<char>, i: usize) -> (r: Option<(Vec<JsonValue>, usize)>)
    requires
        i <= s.len(),
    ensures
        match r {
            None => parse_items(s@, i as int) is None,
            Some((vs, k)) => parse_items(s@, i as int) == Some((data_of_seq(vs@), k as int)) && i
                < k <= s.len(),
        },
    decreases s.len() - i, 1int,
{
    match d_value(s, i) {
        None => None,
        Some((v, j)) => {
            let m = d_skip_ws(s, j);
            if m >= s.len() {
                None
            } else if s[m] == ',' {
                match d_items(s, m + 1) {
                    None => None,
                    Some((rest, k)) => {
                        let ghost rest_view = rest@;
                        let mut vs = rest;
                        vs.insert(0, v);
                        proof {
                            assert(vs@.drop_first() =~= rest_view);
                            assert(data_of_seq(vs@) == seq![v@] + data_of_seq(rest_view));
                        }
                        Some((vs, k))
                    },
                }
            } else if s[m] == ']' {
                let mut vs: Vec<JsonValue> = Vec::new();
                vs.push(v);
                proof {
                    assert(vs@ =~= seq![v]);
                    assert(vs@.drop_first() =~= Seq::<JsonValue>::empty());
                    assert(data_of_seq(vs@) == seq![data_of(vs@[0])] + data_of_seq(
                        vs@.drop_first(),
                    ));
                    assert(data_of_seq(vs@) =~= seq![v@]);
                }
                Some((vs, m + 1))
            } else {
                None
            }
        },
    }
}

fn d_entries(s: &Vec<char>, i: usize) -> (r: Option<(Vec<(String, JsonValue)>, usize)>)
    requires
        i <= s.len(),
    ensures
        match r {
            None => parse_entries(s@, i as int) is None,
            Some((ms, k)) => parse_entries(s@, i as int) == Some((data_of_members(ms@), k as int))
                && i < k <= s.len(),
        },
    decreases s.len() - i, 1int,
{
    let j = d_skip_ws(s, i);
    if j >= s.len() {
        return None;
    }
    if s[j] != '"' {
        return None;
    }
    match d_string_body(s, j + 1) {
        None => None,
        Some((kc, k1)) => {
            let m = d_skip_ws(s, k1);
            if m >= s.len() {
                return None;
            }
            if s[m] != ':' {
                return None;
            }
            match d_value(s, m + 1) {
                None => None,
                Some((v, k2)) => {
                    let m2 = d_skip_ws(s, k2);
                    if m2 >= s.len() {
                        return None;
                    }
                    let key = string_from_chars(&kc);
                    if s[m2] == ',' {
                        match d_entries(s, m2 + 1) {
                            None => None,
                            Some((rest, k)) => {
                                let ghost rest_view = rest@;
                                let mut ms = rest;
                                ms.insert(0, (key, v));
                                proof {
                                    assert(ms@.drop_first() =~= rest_view);
                                    assert(data_of_members(ms@) == seq![(kc@, v@)]
                                        + data_of_members(rest_view));
                                }
                                Some((ms, k))
                            },
                        }
                    } else if s[m2] == '}' {
                        let mut ms: Vec<(String, JsonValue)> = Vec::new();
                        ms.push((key, v));
                        proof {
                            assert(ms@ =~= seq![(key, v)]);
                            assert(ms@.drop_first() =~= Seq::<(String, JsonValue)>::empty());
                            assert(data_of_members(ms@) == seq![(ms@[0].0@, data_of(ms@[0].1))]
                                + data_of_members(ms@.drop_first()));
                            assert(data_of_members(ms@) =~= seq![(kc@, v@)]);
                        }
                        Some((ms, m2 + 1))
                    } else {
                        None
                    }
                },
            }
        },
    }
}

/// Reads a whole line as one value, exactly as the grammar defines it.
pub fn parse_line(line: &str) -> (r: Option<JsonValue>)
    ensures
        match r {
            None => parse_json(line@) is None,
            Some(v) => parse_json(line@) == Some(v@),
        },
{
    let cs = chars_of(line);
    match d_value(&cs, 0) {
        None => None,
        Some((v, j)) => {
            let e = d_skip_ws(&cs, j);
            if e == cs.len() {
                Some(v)
            } else {
                None
            }
        },
    }
}

} // verus!
