//! Rendering of a wire value as one line of structured text.
//!
//! The canonical form is compact: no whitespace between tokens, `"` and `\`
//! and every control character escaped inside text, and nothing else
//! escaped. Every character of the rendered form is at or above the space
//! character, so a rendered value never contains a line break.

use vstd::prelude::*;
use crate::json::{
    JsonValue, JsonData, data_of_seq, data_of_members, lemma_data_of_seq_len,
    lemma_data_of_seq_index, lemma_data_of_members_len, lemma_data_of_members_index,
};
use vstd::string::StrSliceExecFns;

verus! {

/// The decimal digit for a value between 0 and 9.
pub open spec fn digit_char(d: int) -> char {
    if d == 0 { '0' }
    else if d == 1 { '1' }
    else if d == 2 { '2' }
    else if d == 3 { '3' }
    else if d == 4 { '4' }
    else if d == 5 { '5' }
    else if d == 6 { '6' }
    else if d == 7 { '7' }
    else if d == 8 { '8' }
    else { '9' }
}

/// The lower-case hexadecimal digit for a value between 0 and 15.
pub open spec fn hex_char(d: int) -> char {
    if d < 10 { digit_char(d) }
    else if d == 10 { 'a' }
    else if d == 11 { 'b' }
    else if d == 12 { 'c' }
    else if d == 13 { 'd' }
    else if d == 14 { 'e' }
    else { 'f' }
}

/// The decimal rendering of a natural number, most significant digit first.
pub open spec fn digits_of(n: nat) -> Seq<char>
    decreases n,
{
    if n < 10 {
        seq![digit_char(n as int)]
    } else {
        digits_of(n / 10) + seq![digit_char((n % 10) as int)]
    }
}

/// The rendering of an integer: a minus sign for negative values, then
/// the decimal digits with no leading zero.
pub open spec fn encode_int(n: int) -> Seq<char> {
    if n < 0 {
        seq!['-'] + digits_of((-n) as nat)
    } else {
        digits_of(n as nat)
    }
}

/// How one character of a text value appears inside its quotes.
pub open spec fn escape_char(c: char) -> Seq<char> {
    if c == '"' { seq!['\\', '"'] }
    else if c == '\\' { seq!['\\', '\\'] }
    else if c == '\u{0008}' { seq!['\\', 'b'] }
    else if c == '\u{000C}' { seq!['\\', 'f'] }
    else if c == '\n' { seq!['\\', 'n'] }
    else if c == '\r' { seq!['\\', 'r'] }
    else if c == '\t' { seq!['\\', 't'] }
    else if (c as u32) < 32 {
        seq!['\\', 'u', '0', '0', hex_char((c as u32) as int / 16), hex_char((c as u32) as int % 16)]
    } else {
        seq![c]
    }
}

/// The escaped body of a text value, without the surrounding quotes.
pub open spec fn escape_body(s: Seq<char>) -> Seq<char>
    decreases s,
{
    if s.len() == 0 {
        Seq::empty()
    } else {
        escape_char(s[0]) + escape_body(s.drop_first())
    }
}

/// The rendering of a text value, quotes included.
pub open spec fn encode_text(s: Seq<char>) -> Seq<char> {
    seq!['"'] + escape_body(s) + seq!['"']
}

/// The rendering of a whole value.
pub open spec fn encode_data(d: JsonData) -> Seq<char>
    decreases d,
{
    match d {
        JsonData::Null => seq!['n', 'u', 'l', 'l'],
        JsonData::Bool(b) => if b { seq!['t', 'r', 'u', 'e'] } else { seq!['f', 'a', 'l', 's', 'e'] },
        JsonData::Number(n) => encode_int(n),
        JsonData::Text(s) => encode_text(s),
        JsonData::Array(elems) => seq!['['] + encode_items(elems) + seq![']'],
        JsonData::Object(members) => seq!['{'] + encode_members(members) + seq!['}'],
    }
}

/// The comma-separated renderings of an array's elements.
pub open spec fn encode_items(elems: Seq<JsonData>) -> Seq<char>
    decreases elems,
{
    if elems.len() == 0 {
        Seq::empty()
    } else if elems.len() == 1 {
        encode_data(elems[0])
    } else {
        encode_data(elems[0]) + seq![','] + encode_items(elems.drop_first())
    }
}

/// The comma-separated renderings of an object's members, each a quoted
/// key, a colon and a value.
pub open spec fn encode_members(members: Seq<(Seq<char>, JsonData)>) -> Seq<char>
    decreases members,
{
    if members.len() == 0 {
        Seq::empty()
    } else if members.len() == 1 {
        encode_text(members[0].0) + seq![':'] + encode_data(members[0].1)
    } else {
        encode_text(members[0].0) + seq![':'] + encode_data(members[0].1) + seq![',']
            + encode_members(members.drop_first())
    }
}

proof fn lemma_escape_body_snoc(s: Seq<char>, c: char)
    ensures
        escape_body(s.push(c)) == escape_body(s) + escape_char(c),
    decreases s,
{
    if s.len() == 0 {
        let t = s.push(c);
        assert(t[0] == c);
        assert(t.drop_first() =~= Seq::<char>::empty());
        assert(escape_body(t) == escape_char(c) + escape_body(t.drop_first()));
        assert(escape_char(c) + escape_body(t.drop_first()) =~= escape_char(c));
        assert(escape_body(s) + escape_char(c) =~= escape_char(c));
    } else {
        assert(s.push(c)[0] == s[0]);
        assert(s.push(c).drop_first() =~= s.drop_first().push(c));
        lemma_escape_body_snoc(s.drop_first(), c);
        assert(escape_body(s.push(c)) =~= escape_body(s) + escape_char(c));
    }
}

fn digit_of(d: u64) -> (c: char)
    requires
        d < 10,
    ensures
        c == digit_char(d as int),
{
    if d == 0 { '0' }
    else if d == 1 { '1' }
    else if d == 2 { '2' }
    else if d == 3 { '3' }
    else if d == 4 { '4' }
    else if d == 5 { '5' }
    else if d == 6 { '6' }
    else if d == 7 { '7' }
    else if d == 8 { '8' }
    else { '9' }
}

fn hex_of(d: u32) -> (c: char)
    requires
        d < 16,
    ensures
        c == hex_char(d as int),
{
    if d < 10 { digit_of(d as u64) }
    else if d == 10 { 'a' }
    else if d == 11 { 'b' }
    else if d == 12 { 'c' }
    else if d == 13 { 'd' }
    else if d == 14 { 'e' }
    else { 'f' }
}

fn write_u64(n: u64, out: &mut Vec<char>)
    ensures
        final(out)@ == old(out)@ + digits_of(n as nat),
    decreases n,
{
    if n < 10 {
        let c = digit_of(n);
        out.push(c);
        assert(out@ =~= old(out)@ + digits_of(n as nat));
    } else {
        write_u64(n / 10, out);
        let c = digit_of(n % 10);
        out.push(c);
        assert(out@ =~= old(out)@ + digits_of(n as nat));
    }
}

fn write_i64(n: i64, out: &mut Vec<char>)
    ensures
        final(out)@ == old(out)@ + encode_int(n as int),
{
    if n >= 0 {
        write_u64(n as u64, out);
    } else {
        out.push('-');
        let m: u64 = ((-(n + 1)) as u64) + 1;
        assert(m as nat == (-(n as int)) as nat);
        write_u64(m, out);
        assert(out@ =~= old(out)@ + encode_int(n as int));
    }
}

fn write_escape(c: char, out: &mut Vec<char>)
    ensures
        final(out)@ == old(out)@ + escape_char(c),
{
    if c == '"' {
        out.push('\\');
        out.push('"');
    } else if c == '\\' {
        out.push('\\');
        out.push('\\');
    } else if c == '\u{0008}' {
        out.push('\\');
        out.push('b');
    } else if c == '\u{000C}' {
        out.push('\\');
        out.push('f');
    } else if c == '\n' {
        out.push('\\');
        out.push('n');
    } else if c == '\r' {
        out.push('\\');
        out.push('r');
    } else if c == '\t' {
        out.push('\\');
        out.push('t');
    } else if (c as u32) < 32 {
        out.push('\\');
        out.push('u');
        out.push('0');
        out.push('0');
        let hi = hex_of((c as u32) / 16);
        out.push(hi);
        let lo = hex_of((c as u32) % 16);
        out.push(lo);
    } else {
        out.push(c);
    }
    assert(out@ =~= old(out)@ + escape_char(c));
}

/// Appends the quoted, escaped rendering of a text value.
pub(crate) fn write_text(s: &str, out: &mut Vec<char>)
    ensures
        final(out)@ == old(out)@ + encode_text(s@),
{
    out.push('"');
    let n = s.unicode_len();
    let mut i: usize = 0;
    while i < n
        invariant
            n == s@.len(),
            i <= n,
            out@ == old(out)@ + seq!['"'] + escape_body(s@.take(i as int)),
        decreases n - i,
    {
        let c = s.get_char(i);
        write_escape(c, out);
        proof {
            assert(s@.take(i + 1 as int) =~= s@.take(i as int).push(s@[i as int]));
            lemma_escape_body_snoc(s@.take(i as int), s@[i as int]);
        }
        i = i + 1;
    }
    out.push('"');
    proof {
        assert(s@.take(n as int) =~= s@);
        assert(out@ =~= old(out)@ + encode_text(s@));
    }
}

/// Appends the rendering of a value.
pub fn write_json(v: &JsonValue, out: &mut Vec<char>)
    ensures
        final(out)@ == old(out)@ + encode_data(v@),
    decreases v,
{
    match v {
        JsonValue::Null => {
            out.push('n');
            out.push('u');
            out.push('l');
            out.push('l');
            assert(out@ =~= old(out)@ + encode_data(v@));
        },
        JsonValue::Bool(b) => {
            if *b {
                out.push('t');
                out.push('r');
                out.push('u');
                out.push('e');
            } else {
                out.push('f');
                out.push('a');
                out.push('l');
                out.push('s');
                out.push('e');
            }
            assert(out@ =~= old(out)@ + encode_data(v@));
        },
        JsonValue::Number(n) => {
            write_i64(*n, out);
        },
        JsonValue::Text(s) => {
            write_text(s.as_str(), out);
        },
        JsonValue::Array(elems) => {
            out.push('[');
            write_items(elems, 0, out);
            out.push(']');
            proof {
                assert(elems@.skip(0) =~= elems@);
                assert(out@ =~= old(out)@ + encode_data(v@));
            }
        },
        JsonValue::Object(members) => {
            out.push('{');
            write_entries(members, 0, out);
            out.push('}');
            proof {
                assert(members@.skip(0) =~= members@);
                assert(out@ =~= old(out)@ + encode_data(v@));
            }
        },
    }
}

/// Appends the renderings of the array elements from position `i` on,
/// separated by commas.
fn write_items(elems: &Vec<JsonValue>, i: usize, out: &mut Vec<char>)
    requires
        i <= elems.len(),
    ensures
        final(out)@ == old(out)@ + encode_items(data_of_seq(elems@.skip(i as int))),
    decreases elems, elems.len() - i,
{
    proof {
        lemma_data_of_seq_len(elems@.skip(i as int));
    }
    if i == elems.len() {
        assert(out@ =~= old(out)@ + encode_items(data_of_seq(elems@.skip(i as int))));
    } else {
        write_json(&elems[i], out);
        proof {
            lemma_data_of_seq_index(elems@.skip(i as int), 0);
        }
        if i + 1 < elems.len() {
            out.push(',');
            write_items(elems, i + 1, out);
            proof {
                assert(elems@.skip(i as int).drop_first() =~= elems@.skip(i + 1 as int));
                assert(data_of_seq(elems@.skip(i as int)).drop_first() == data_of_seq(
                    elems@.skip(i + 1 as int),
                ));
                assert(out@ =~= old(out)@ + encode_items(data_of_seq(elems@.skip(i as int))));
            }
        } else {
            proof {
                assert(elems@.skip(i as int) =~= seq![elems@[i as int]]);
                assert(out@ =~= old(out)@ + encode_items(data_of_seq(elems@.skip(i as int))));
            }
        }
    }
}

/// Appends the renderings of the object members from position `i` on,
/// separated by commas.
fn write_entries(members: &Vec<(String, JsonValue)>, i: usize, out: &mut Vec<char>)
    requires
        i <= members.len(),
    ensures
        final(out)@ == old(out)@ + encode_members(data_of_members(members@.skip(i as int))),
    decreases members, members.len() - i,
{
    proof {
        lemma_data_of_members_len(members@.skip(i as int));
    }
    if i == members.len() {
        assert(out@ =~= old(out)@ + encode_members(data_of_members(members@.skip(i as int))));
    } else {
        write_text(members[i].0.as_str(), out);
        out.push(':');
        write_json(&members[i].1, out);
        proof {
            lemma_data_of_members_index(members@.skip(i as int), 0);
        }
        if i + 1 < members.len() {
            out.push(',');
            write_entries(members, i + 1, out);
            proof {
                assert(members@.skip(i as int).drop_first() =~= members@.skip(i + 1 as int));
                assert(data_of_members(members@.skip(i as int)).drop_first() == data_of_members(
                    members@.skip(i + 1 as int),
                ));
                assert(out@ =~= old(out)@ + encode_members(data_of_members(members@.skip(i as int))));
            }
        } else {
            proof {
                assert(members@.skip(i as int) =~= seq![members@[i as int]]);
                assert(out@ =~= old(out)@ + encode_members(data_of_members(members@.skip(i as int))));
            }
        }
    }
}

} // verus!
