//! The round-trip law of the wire grammar: reading a rendered value
//! gives back exactly the value that was rendered, for every value the
//! machine can hold.

use vstd::prelude::*;
use crate::json::{JsonData, bounded};
use crate::encode::{
    digit_char, hex_char, digits_of, encode_int, escape_char, escape_body, encode_text,
    encode_data, encode_items, encode_members,
};
use crate::parse::{
    is_ws, is_digit, digit_val, hex_val, skip_ws, scan_digits, digits_value, hex4, parse_escape,
    parse_string_body, parse_number, parse_value, parse_items, parse_entries, parse_json,
};
use crate::messages::{
    RequestData, ResponseData, request_members, response_members, encode_request_data,
    encode_response_data, decode_request_line, decode_response_line, obj_lookup, key_count,
    request_of_json,
    response_of_json, id_key, function_key, args_key, success_key, result_key, error_key,
};

verus! {

proof fn lemma_digit_char_val(k: int)
    requires
        0 <= k < 10,
    ensures
        is_digit(digit_char(k)),
        digit_val(digit_char(k)) == k,
        k > 0 ==> digit_char(k) != '0',
{
}

proof fn lemma_hex_char_val(k: int)
    requires
        0 <= k < 16,
    ensures
        hex_val(hex_char(k)) == k,
{
}

proof fn lemma_digits_of_digits(n: nat, k: int)
    requires
        0 <= k < digits_of(n).len(),
    ensures
        digits_of(n).len() >= 1,
        is_digit(digits_of(n)[k]),
    decreases n,
{
    if n < 10 {
        lemma_digit_char_val(n as int);
    } else {
        lemma_digit_char_val((n % 10) as int);
        if k < digits_of(n / 10).len() {
            lemma_digits_of_digits(n / 10, k);
        }
    }
}

proof fn lemma_digits_of_len(n: nat)
    ensures
        digits_of(n).len() >= 1,
    decreases n,
{
    if n >= 10 {
        lemma_digits_of_len(n / 10);
    }
}

proof fn lemma_digits_of_leading(n: nat)
    ensures
        digits_of(n).len() >= 1,
        n == 0 ==> digits_of(n) == seq![digit_char(0)],
        n > 0 ==> digits_of(n)[0] != '0',
    decreases n,
{
    if n < 10 {
        lemma_digit_char_val(n as int);
    } else {
        lemma_digits_of_leading(n / 10);
        lemma_digits_of_len(n / 10);
        assert(digits_of(n)[0] == digits_of(n / 10)[0]);
    }
}

proof fn lemma_digits_value_of_digits(s: Seq<char>, i: int, n: nat)
    requires
        0 <= i,
        i + digits_of(n).len() <= s.len(),
        forall|k: int| 0 <= k < digits_of(n).len() ==> s[i + k] == digits_of(n)[k],
    ensures
        digits_value(s, i, i + digits_of(n).len()) == n,
    decreases n,
{
    let ds = digits_of(n);
    if n < 10 {
        lemma_digit_char_val(n as int);
        assert(s[i + 0] == ds[0]);
        assert(ds[0] == digit_char(n as int));
        assert(digits_value(s, i, i) == 0);
        assert(digits_value(s, i, i + 1) == digits_value(s, i, i) * 10 + digit_val(s[i]));
    } else {
        let prefix = digits_of(n / 10);
        assert(ds == prefix + seq![digit_char((n % 10) as int)]);
        assert forall|k: int| 0 <= k < prefix.len() implies s[i + k] == prefix[k] by {
            assert(s[i + k] == ds[k]);
            assert(ds[k] == prefix[k]);
        }
        lemma_digits_value_of_digits(s, i, n / 10);
        assert(digits_value(s, i, i + prefix.len()) == n / 10);
        lemma_digit_char_val((n % 10) as int);
        let j = i + ds.len();
        assert(s[j - 1] == ds[ds.len() - 1]);
        assert(ds[ds.len() - 1] == digit_char((n % 10) as int));
        assert(digits_value(s, i, j) == digits_value(s, i, j - 1) * 10 + digit_val(s[j - 1]));
        assert(n / 10 * 10 + n % 10 == n) by {
            vstd::arithmetic::div_mod::lemma_fundamental_div_mod(n as int, 10);
        }
    }
}

proof fn lemma_scan_digits_agrees(s: Seq<char>, i: int, j: int)
    requires
        0 <= i <= j <= s.len(),
        forall|k: int| i <= k < j ==> is_digit(#[trigger] s[k]),
        j == s.len() || !is_digit(s[j]),
    ensures
        scan_digits(s, i) == j,
    decreases j - i,
{
    if i < j {
        lemma_scan_digits_agrees(s, i + 1, j);
    }
}

proof fn lemma_skip_ws_stays(s: Seq<char>, i: int)
    requires
        0 <= i,
        i == s.len() || !is_ws(s[i]),
    ensures
        skip_ws(s, i) == i,
{
}

proof fn lemma_parse_encoded_number(s: Seq<char>, i: int, n: int)
    requires
        i64::MIN <= n <= i64::MAX,
        0 <= i,
        i + encode_int(n).len() <= s.len(),
        forall|k: int| 0 <= k < encode_int(n).len() ==> s[i + k] == encode_int(n)[k],
        i + encode_int(n).len() == s.len() || !is_digit(s[i + encode_int(n).len()]),
    ensures
        parse_number(s, i) == Some((JsonData::Number(n), i + encode_int(n).len())),
{
    let enc = encode_int(n);
    let m: nat = if n < 0 { (-n) as nat } else { n as nat };
    let ds = digits_of(m);
    lemma_digits_of_len(m);
    let d0: int = if n < 0 { i + 1 } else { i };
    if n < 0 {
        assert(s[i + 0] == enc[0]);
        assert(enc[0] == '-');
        assert forall|k: int| 0 <= k < ds.len() implies s[d0 + k] == ds[k] by {
            assert(s[i + (k + 1)] == enc[k + 1]);
            assert(enc[k + 1] == ds[k]);
        }
    } else {
        assert forall|k: int| 0 <= k < ds.len() implies s[d0 + k] == ds[k] by {
            assert(s[i + k] == enc[k]);
        }
        lemma_digits_of_digits(m, 0);
        assert(is_digit(s[i]));
        assert(s[i] != '-');
    }
    assert forall|k: int| d0 <= k < d0 + ds.len() implies is_digit(#[trigger] s[k]) by {
        lemma_digits_of_digits(m, k - d0);
    }
    assert(d0 + ds.len() == i + enc.len());
    lemma_scan_digits_agrees(s, d0, d0 + ds.len());
    lemma_digits_of_leading(m);
    if ds.len() > 1 {
        assert(m >= 10) by {
            if m < 10 {
                assert(ds.len() == 1);
            }
        }
        assert(s[d0] != '0');
    }
    lemma_digits_value_of_digits(s, d0, m);
    assert(digits_value(s, d0, d0 + ds.len()) == m);
}

proof fn lemma_parse_escaped_body(s: Seq<char>, i: int, txt: Seq<char>)
    requires
        0 <= i,
        i + escape_body(txt).len() + 1 <= s.len(),
        forall|k: int| 0 <= k < escape_body(txt).len() ==> s[i + k] == escape_body(txt)[k],
        s[i + escape_body(txt).len()] == '"',
    ensures
        parse_string_body(s, i) == Some((txt, i + escape_body(txt).len() + 1)),
    decreases txt.len(),
{
    let eb = escape_body(txt);
    if txt.len() == 0 {
        assert(eb.len() == 0);
        assert(s[i] == '"');
        assert(txt =~= Seq::<char>::empty());
    } else {
        let c = txt[0];
        let rest = txt.drop_first();
        let ec = escape_char(c);
        let ebr = escape_body(rest);
        assert(eb == ec + ebr);
        assert forall|k: int| 0 <= k < ec.len() implies s[i + k] == ec[k] by {
            assert(s[i + k] == eb[k]);
        }
        assert forall|k: int| 0 <= k < ebr.len() implies s[i + ec.len() + k] == ebr[k] by {
            assert(s[i + (ec.len() + k)] == eb[ec.len() + k]);
            assert(eb[ec.len() + k] == ebr[k]);
        }
        assert(s[i + ec.len() + ebr.len()] == '"');
        lemma_parse_escaped_body(s, i + ec.len(), rest);
        let after = i + ec.len();
        if c == '"' || c == '\\' || c == '\u{0008}' || c == '\u{000C}' || c == '\n' || c == '\r'
            || c == '\t' {
            assert(ec.len() == 2);
            assert(s[i] == '\\');
            assert(parse_escape(s, i) == Some((c, i + 2)));
            assert(parse_string_body(s, i) == Some((seq![c] + rest, after + ebr.len() + 1)));
            assert(seq![c] + rest =~= txt);
        } else if (c as u32) < 32 {
            let cu = (c as u32) as int;
            assert(ec.len() == 6);
            assert(s[i] == '\\');
            assert(s[i + 1] == 'u');
            assert(s[i + 2] == '0');
            assert(s[i + 3] == '0');
            assert(s[i + 4] == hex_char(cu / 16));
            assert(s[i + 5] == hex_char(cu % 16));
            assert(hex_val('0') == 0);
            lemma_hex_char_val(cu / 16);
            lemma_hex_char_val(cu % 16);
            assert(hex4(s, i + 2) == Some(16 * (cu / 16) + cu % 16));
            assert(16 * (cu / 16) + cu % 16 == cu) by {
                vstd::arithmetic::div_mod::lemma_fundamental_div_mod(cu, 16);
            }
            vstd::utf8::char_u32_cast(c, c as u32);
            assert(((cu as u32) as char) == c);
            assert(parse_escape(s, i) == Some((c, i + 6)));
            assert(parse_string_body(s, i) == Some((seq![c] + rest, after + ebr.len() + 1)));
            assert(seq![c] + rest =~= txt);
        } else {
            assert(ec =~= seq![c]);
            assert(s[i + 0] == eb[0]);
            assert(eb[0] == ec[0]);
            assert(s[i] == c);
            assert(parse_string_body(s, i) == Some((seq![c] + rest, after + ebr.len() + 1)));
            assert(seq![c] + rest =~= txt);
        }
    }
}

/// The first character of any rendered value: never whitespace, never a
/// closing token or separator.
proof fn lemma_encode_leads(d: JsonData)
    ensures
        encode_data(d).len() >= 1,
        !is_ws(encode_data(d)[0]),
        encode_data(d)[0] != ']',
        encode_data(d)[0] != '}',
        encode_data(d)[0] != ',',
        encode_data(d)[0] != ':',
    decreases d,
{
    match d {
        JsonData::Number(n) => {
            if n < 0 {
                lemma_digits_of_len((-n) as nat);
            } else {
                lemma_digits_of_len(n as nat);
                lemma_digits_of_digits(n as nat, 0);
            }
        },
        _ => {},
    }
}

#[verifier::rlimit(100)]
proof fn lemma_parse_encoded_value(s: Seq<char>, i: int, d: JsonData)
    requires
        bounded(d),
        0 <= i,
        i + encode_data(d).len() <= s.len(),
        forall|k: int| 0 <= k < encode_data(d).len() ==> s[i + k] == encode_data(d)[k],
        i + encode_data(d).len() == s.len() || !is_digit(s[i + encode_data(d).len()]),
    ensures
        parse_value(s, i) == Some((d, i + encode_data(d).len())),
    decreases d,
{
    let enc = encode_data(d);
    lemma_encode_leads(d);
    assert(s[i + 0] == enc[0]);
    lemma_skip_ws_stays(s, i);
    match d {
        JsonData::Null => {
            assert(s[i + 1] == enc[1]);
            assert(s[i + 2] == enc[2]);
            assert(s[i + 3] == enc[3]);
        },
        JsonData::Bool(b) => {
            assert(s[i + 1] == enc[1]);
            assert(s[i + 2] == enc[2]);
            assert(s[i + 3] == enc[3]);
            if !b {
                assert(s[i + 4] == enc[4]);
            }
        },
        JsonData::Number(n) => {
            lemma_parse_encoded_number(s, i, n);
        },
        JsonData::Text(txt) => {
            let eb = escape_body(txt);
            assert(enc == seq!['"'] + eb + seq!['"']);
            assert forall|k: int| 0 <= k < eb.len() implies s[i + 1 + k] == eb[k] by {
                assert(s[i + (1 + k)] == enc[1 + k]);
                assert(enc[1 + k] == eb[k]);
            }
            assert(s[i + (1 + eb.len())] == enc[1 + eb.len() as int]);
            assert(s[i + 1 + eb.len()] == '"');
            lemma_parse_escaped_body(s, i + 1, txt);
        },
        JsonData::Array(elems) => {
            let items = encode_items(elems);
            assert(enc == seq!['['] + items + seq![']']);
            assert forall|k: int| 0 <= k < items.len() implies s[i + 1 + k] == items[k] by {
                assert(s[i + (1 + k)] == enc[1 + k]);
                assert(enc[1 + k] == items[k]);
            }
            assert(s[i + (1 + items.len())] == enc[1 + items.len() as int]);
            assert(s[i + 1 + items.len()] == ']');
            if elems.len() == 0 {
                assert(items.len() == 0);
                assert(s[i + 1] == ']');
                lemma_skip_ws_stays(s, i + 1);
                assert(parse_value(s, i) == Some((JsonData::Array(Seq::empty()), i + 2)));
                assert(elems =~= Seq::<JsonData>::empty());
            } else {
                lemma_encode_leads(elems[0]);
                if elems.len() == 1 {
                    assert(items[0] == encode_data(elems[0])[0]);
                } else {
                    assert(items == encode_data(elems[0]) + seq![','] + encode_items(
                        elems.drop_first(),
                    ));
                    assert(items[0] == encode_data(elems[0])[0]);
                }
                assert(!is_ws(s[i + 1]));
                assert(s[i + 1] != ']');
                lemma_skip_ws_stays(s, i + 1);
                lemma_parse_encoded_items(s, i + 1, elems);
            }
        },
        JsonData::Object(members) => {
            let body = encode_members(members);
            assert(enc == seq!['{'] + body + seq!['}']);
            assert forall|k: int| 0 <= k < body.len() implies s[i + 1 + k] == body[k] by {
                assert(s[i + (1 + k)] == enc[1 + k]);
                assert(enc[1 + k] == body[k]);
            }
            assert(s[i + (1 + body.len())] == enc[1 + body.len() as int]);
            assert(s[i + 1 + body.len()] == '}');
            if members.len() == 0 {
                assert(body.len() == 0);
                assert(s[i + 1] == '}');
                lemma_skip_ws_stays(s, i + 1);
                assert(parse_value(s, i) == Some(
                    (JsonData::Object(Seq::empty()), i + 2),
                ));
                assert(members =~= Seq::<(Seq<char>, JsonData)>::empty());
            } else {
                if members.len() == 1 {
                    assert(body[0] == encode_text(members[0].0)[0]);
                } else {
                    assert(body == encode_text(members[0].0) + seq![':'] + encode_data(
                        members[0].1,
                    ) + seq![','] + encode_members(members.drop_first()));
                    assert(body[0] == encode_text(members[0].0)[0]);
                }
                assert(s[i + 1] == '"');
                lemma_skip_ws_stays(s, i + 1);
                lemma_parse_encoded_entries(s, i + 1, members);
            }
        },
    }
}

#[verifier::rlimit(100)]
proof fn lemma_parse_encoded_items(s: Seq<char>, i: int, elems: Seq<JsonData>)
    requires
        elems.len() > 0,
        forall|k: int| 0 <= k < elems.len() ==> bounded(#[trigger] elems[k]),
        0 <= i,
        i + encode_items(elems).len() + 1 <= s.len(),
        forall|k: int| 0 <= k < encode_items(elems).len() ==> s[i + k] == encode_items(elems)[k],
        s[i + encode_items(elems).len()] == ']',
    ensures
        parse_items(s, i) == Some((elems, i + encode_items(elems).len() + 1)),
    decreases elems,
{
    let items = encode_items(elems);
    let e0 = elems[0];
    let enc0 = encode_data(e0);
    lemma_encode_leads(e0);
    if elems.len() == 1 {
        assert(items == enc0);
        assert forall|k: int| 0 <= k < enc0.len() implies s[i + k] == enc0[k] by {
            assert(s[i + k] == items[k]);
        }
        assert(s[i + enc0.len()] == ']');
        assert(!is_digit(']'));
        lemma_parse_encoded_value(s, i, e0);
        let j = i + enc0.len();
        lemma_skip_ws_stays(s, j);
        assert(parse_items(s, i) == Some((seq![e0], j + 1)));
        assert(seq![e0] =~= elems);
    } else {
        let rest = elems.drop_first();
        let tail = encode_items(rest);
        assert(items == enc0 + seq![','] + tail);
        assert forall|k: int| 0 <= k < enc0.len() implies s[i + k] == enc0[k] by {
            assert(s[i + k] == items[k]);
            assert(items[k] == enc0[k]);
        }
        assert(s[i + enc0.len()] == items[enc0.len() as int]);
        assert(s[i + enc0.len()] == ',');
        assert(!is_digit(','));
        lemma_parse_encoded_value(s, i, e0);
        let j = i + enc0.len();
        lemma_skip_ws_stays(s, j);
        let j2 = j + 1;
        assert forall|k: int| 0 <= k < tail.len() implies s[j2 + k] == tail[k] by {
            assert(s[i + (enc0.len() + 1 + k)] == items[enc0.len() + 1 + k]);
            assert(items[enc0.len() + 1 + k] == tail[k]);
        }
        assert(j2 + tail.len() == i + items.len());
        assert(s[j2 + tail.len()] == ']');
        assert forall|k: int| 0 <= k < rest.len() implies bounded(#[trigger] rest[k]) by {
            assert(rest[k] == elems[k + 1]);
        }
        lemma_parse_encoded_items(s, j2, rest);
        assert(parse_items(s, i) == Some((seq![e0] + rest, j2 + tail.len() + 1)));
        assert(seq![e0] + rest =~= elems);
    }
}

#[verifier::rlimit(100)]
proof fn lemma_parse_encoded_entries(s: Seq<char>, i: int, members: Seq<(Seq<char>, JsonData)>)
    requires
        members.len() > 0,
        forall|k: int| 0 <= k < members.len() ==> bounded(#[trigger] members[k].1),
        0 <= i,
        i + encode_members(members).len() + 1 <= s.len(),
        forall|k: int|
            0 <= k < encode_members(members).len() ==> s[i + k] == encode_members(members)[k],
        s[i + encode_members(members).len()] == '}',
    ensures
        parse_entries(s, i) == Some((members, i + encode_members(members).len() + 1)),
    decreases members,
{
    let body = encode_members(members);
    let key = members[0].0;
    let v0 = members[0].1;
    let kenc = encode_text(key);
    let venc = encode_data(v0);
    let ebk = escape_body(key);
    assert(kenc == seq!['"'] + ebk + seq!['"']);
    let head = kenc + seq![':'] + venc;
    if members.len() == 1 {
        assert(body == head);
    } else {
        assert(body == head + seq![','] + encode_members(members.drop_first()));
    }
    assert forall|k: int| 0 <= k < head.len() implies s[i + k] == head[k] by {
        assert(s[i + k] == body[k]);
        assert(body[k] == head[k]);
    }
    assert(s[i + 0] == head[0]);
    assert(s[i] == '"');
    lemma_skip_ws_stays(s, i);
    assert forall|k: int| 0 <= k < ebk.len() implies s[i + 1 + k] == ebk[k] by {
        assert(s[i + (1 + k)] == head[1 + k]);
        assert(head[1 + k] == kenc[1 + k]);
        assert(kenc[1 + k] == ebk[k]);
    }
    assert(s[i + (1 + ebk.len())] == head[1 + ebk.len() as int]);
    assert(s[i + 1 + ebk.len()] == '"');
    lemma_parse_escaped_body(s, i + 1, key);
    let k1 = i + 1 + ebk.len() + 1;
    assert(k1 == i + kenc.len());
    assert(s[i + kenc.len()] == head[kenc.len() as int]);
    assert(s[k1] == ':');
    lemma_skip_ws_stays(s, k1);
    let vstart = k1 + 1;
    assert forall|k: int| 0 <= k < venc.len() implies s[vstart + k] == venc[k] by {
        assert(s[i + (kenc.len() + 1 + k)] == head[kenc.len() + 1 + k]);
        assert(head[kenc.len() + 1 + k] == venc[k]);
    }
    let k2 = vstart + venc.len();
    assert(k2 == i + head.len());
    if members.len() == 1 {
        assert(s[k2] == '}');
        assert(!is_digit('}'));
        lemma_parse_encoded_value(s, vstart, v0);
        lemma_skip_ws_stays(s, k2);
        assert(parse_entries(s, i) == Some((seq![(key, v0)], k2 + 1)));
        assert(seq![(key, v0)] =~= members);
    } else {
        let rest = members.drop_first();
        let tail = encode_members(rest);
        assert(s[i + head.len()] == body[head.len() as int]);
        assert(s[k2] == ',');
        assert(!is_digit(','));
        lemma_parse_encoded_value(s, vstart, v0);
        lemma_skip_ws_stays(s, k2);
        let j2 = k2 + 1;
        assert forall|k: int| 0 <= k < tail.len() implies s[j2 + k] == tail[k] by {
            assert(s[i + (head.len() + 1 + k)] == body[head.len() + 1 + k]);
            assert(body[head.len() + 1 + k] == tail[k]);
        }
        assert(j2 + tail.len() == i + body.len());
        assert(s[j2 + tail.len()] == '}');
        assert forall|k: int| 0 <= k < rest.len() implies bounded(#[trigger] rest[k].1) by {
            assert(rest[k] == members[k + 1]);
        }
        lemma_parse_encoded_entries(s, j2, rest);
        assert(parse_entries(s, i) == Some((seq![(key, v0)] + rest, j2 + tail.len() + 1)));
        assert(seq![(key, v0)] + rest =~= members);
    }
}

/// The round-trip law of the wire grammar: reading the rendering of any
/// value whose numbers the machine can hold gives back exactly that
/// value, with nothing left over.
pub proof fn lemma_wire_round_trip(d: JsonData)
    requires
        bounded(d),
    ensures
        parse_json(encode_data(d)) == Some(d),
{
    let s = encode_data(d);
    lemma_encode_leads(d);
    assert forall|k: int| 0 <= k < s.len() implies #[trigger] s[0 + k] == s[k] by {}
    lemma_parse_encoded_value(s, 0, d);
    lemma_skip_ws_stays(s, s.len() as int);
}

/// Every character of any rendering is at or above the space
/// character.
pub open spec fn printable(s: Seq<char>) -> bool {
    forall|k: int| 0 <= k < s.len() ==> (#[trigger] s[k] as u32) >= 32
}

proof fn lemma_digits_printable(n: nat)
    ensures
        printable(digits_of(n)),
    decreases n,
{
    if n < 10 {
        lemma_digit_char_val(n as int);
    } else {
        lemma_digits_printable(n / 10);
        lemma_digit_char_val((n % 10) as int);
        assert forall|k: int| 0 <= k < digits_of(n).len() implies (#[trigger] digits_of(n)[k]
            as u32) >= 32 by {
            if k < digits_of(n / 10).len() {
                assert(digits_of(n)[k] == digits_of(n / 10)[k]);
            }
        }
    }
}

proof fn lemma_escape_char_printable(c: char)
    ensures
        printable(escape_char(c)),
{
    if !(c == '"' || c == '\\' || c == '\u{0008}' || c == '\u{000C}' || c == '\n' || c == '\r'
        || c == '\t') && (c as u32) < 32 {
        let cu = (c as u32) as int;
        assert(0 <= cu / 16 < 16);
        assert(0 <= cu % 16 < 16);
        assert((hex_char(cu / 16) as u32) >= 32);
        assert((hex_char(cu % 16) as u32) >= 32);
    }
}

proof fn lemma_escape_body_printable(txt: Seq<char>)
    ensures
        printable(escape_body(txt)),
    decreases txt.len(),
{
    if txt.len() > 0 {
        lemma_escape_char_printable(txt[0]);
        lemma_escape_body_printable(txt.drop_first());
        let ec = escape_char(txt[0]);
        let ebr = escape_body(txt.drop_first());
        assert forall|k: int| 0 <= k < escape_body(txt).len() implies (#[trigger] escape_body(
            txt,
        )[k] as u32) >= 32 by {
            if k < ec.len() {
                assert(escape_body(txt)[k] == ec[k]);
            } else {
                assert(escape_body(txt)[k] == ebr[k - ec.len()]);
            }
        }
    }
}

proof fn lemma_concat_printable(a: Seq<char>, b: Seq<char>)
    requires
        printable(a),
        printable(b),
    ensures
        printable(a + b),
{
    assert forall|k: int| 0 <= k < (a + b).len() implies (#[trigger] (a + b)[k] as u32) >= 32 by {
        if k < a.len() {
            assert((a + b)[k] == a[k]);
        } else {
            assert((a + b)[k] == b[k - a.len()]);
        }
    }
}

/// The framing law: the rendering of any value is one line of text with
/// no control character in it — in particular, no embedded line break.
pub proof fn lemma_rendering_is_one_line(d: JsonData)
    ensures
        printable(encode_data(d)),
    decreases d, 1int,
{
    match d {
        JsonData::Null => {},
        JsonData::Bool(b) => {},
        JsonData::Number(n) => {
            if n < 0 {
                lemma_digits_printable((-n) as nat);
                lemma_concat_printable(seq!['-'], digits_of((-n) as nat));
            } else {
                lemma_digits_printable(n as nat);
            }
        },
        JsonData::Text(txt) => {
            lemma_escape_body_printable(txt);
            lemma_concat_printable(seq!['"'], escape_body(txt));
            lemma_concat_printable(seq!['"'] + escape_body(txt), seq!['"']);
        },
        JsonData::Array(elems) => {
            lemma_items_printable(elems);
            lemma_concat_printable(seq!['['], encode_items(elems));
            lemma_concat_printable(seq!['['] + encode_items(elems), seq![']']);
        },
        JsonData::Object(members) => {
            lemma_members_printable(members);
            lemma_concat_printable(seq!['{'], encode_members(members));
            lemma_concat_printable(seq!['{'] + encode_members(members), seq!['}']);
        },
    }
}

proof fn lemma_items_printable(elems: Seq<JsonData>)
    ensures
        printable(encode_items(elems)),
    decreases elems, 0int,
{
    if elems.len() == 0 {
    } else if elems.len() == 1 {
        lemma_rendering_is_one_line(elems[0]);
    } else {
        lemma_rendering_is_one_line(elems[0]);
        lemma_items_printable(elems.drop_first());
        lemma_concat_printable(encode_data(elems[0]), seq![',']);
        lemma_concat_printable(
            encode_data(elems[0]) + seq![','],
            encode_items(elems.drop_first()),
        );
    }
}

proof fn lemma_members_printable(members: Seq<(Seq<char>, JsonData)>)
    ensures
        printable(encode_members(members)),
    decreases members, 0int,
{
    if members.len() == 0 {
    } else {
        let key = members[0].0;
        let kenc = encode_text(key);
        lemma_escape_body_printable(key);
        lemma_concat_printable(seq!['"'], escape_body(key));
        lemma_concat_printable(seq!['"'] + escape_body(key), seq!['"']);
        lemma_rendering_is_one_line(members[0].1);
        lemma_concat_printable(kenc, seq![':']);
        lemma_concat_printable(kenc + seq![':'], encode_data(members[0].1));
        if members.len() > 1 {
            lemma_members_printable(members.drop_first());
            lemma_concat_printable(kenc + seq![':'] + encode_data(members[0].1), seq![',']);
            lemma_concat_printable(
                kenc + seq![':'] + encode_data(members[0].1) + seq![','],
                encode_members(members.drop_first()),
            );
        }
    }
}

/// The framing law at the message level: a rendered request is one line
/// with no embedded line break.
pub proof fn lemma_request_line_has_no_break(r: RequestData)
    ensures
        forall|k: int|
            0 <= k < encode_request_data(r).len() ==> #[trigger] encode_request_data(r)[k] != '\n',
{
    lemma_rendering_is_one_line(JsonData::Object(request_members(r)));
    assert forall|k: int| 0 <= k < encode_request_data(r).len() implies #[trigger]
        encode_request_data(r)[k] != '\n' by {
        assert((encode_request_data(r)[k] as u32) >= 32);
        assert(('\n' as u32) == 10);
    }
}

proof fn lemma_absent_key_count(members: Seq<(Seq<char>, JsonData)>, key: Seq<char>)
    requires
        forall|i: int| 0 <= i < members.len() ==> (#[trigger] members[i].0) != key,
    ensures
        key_count(members, key) == 0,
    decreases members,
{
    if members.len() > 0 {
        let rest = members.drop_first();
        assert forall|i: int| 0 <= i < rest.len() implies (#[trigger] rest[i].0) != key by {
            assert(rest[i] == members[i + 1]);
        }
        lemma_absent_key_count(rest, key);
    }
}

proof fn lemma_distinct_keys_count(members: Seq<(Seq<char>, JsonData)>, key: Seq<char>)
    requires
        forall|i: int, j: int|
            0 <= i < j < members.len() ==> (#[trigger] members[i].0) != (#[trigger] members[j].0),
    ensures
        key_count(members, key) <= 1,
    decreases members,
{
    if members.len() > 0 {
        let rest = members.drop_first();
        assert forall|i: int, j: int| 0 <= i < j < rest.len() implies (#[trigger] rest[i].0) != (
        #[trigger] rest[j].0) by {
            assert(rest[i] == members[i + 1]);
            assert(rest[j] == members[j + 1]);
        }
        lemma_distinct_keys_count(rest, key);
        if members[0].0 == key {
            assert forall|i: int| 0 <= i < rest.len() implies (#[trigger] rest[i].0) != key by {
                assert(rest[i] == members[i + 1]);
            }
            lemma_absent_key_count(rest, key);
        }
    }
}

proof fn lemma_lookup_cons(
    head: (Seq<char>, JsonData),
    tail: Seq<(Seq<char>, JsonData)>,
    key: Seq<char>,
)
    ensures
        obj_lookup(seq![head] + tail, key) == (if head.0 == key {
            Some(head.1)
        } else {
            obj_lookup(tail, key)
        }),
{
    let ms = seq![head] + tail;
    assert(ms[0] == head);
    assert(ms.drop_first() =~= tail);
}

/// The round-trip law of requests: reading the rendering of any request
/// whose arguments the machine can hold gives back exactly that request.
pub proof fn lemma_request_round_trip(r: RequestData)
    requires
        bounded(r.args),
    ensures
        decode_request_line(encode_request_data(r)) == Some(r),
{
    let idm = (id_key(), JsonData::Text(r.id));
    let fm = (function_key(), JsonData::Text(r.function));
    let am = (args_key(), r.args);
    let ms = request_members(r);
    let d = JsonData::Object(ms);
    assert(bounded(d)) by {
        assert(forall|k: int| 0 <= k < ms.len() ==> bounded(#[trigger] ms[k].1));
    }
    lemma_wire_round_trip(d);
    assert(ms =~= seq![idm] + seq![fm, am]);
    assert(seq![fm, am] =~= seq![fm] + seq![am]);
    assert(seq![am] =~= seq![am] + Seq::<(Seq<char>, JsonData)>::empty());
    lemma_lookup_cons(idm, seq![fm, am], id_key());
    lemma_lookup_cons(idm, seq![fm, am], function_key());
    lemma_lookup_cons(idm, seq![fm, am], args_key());
    lemma_lookup_cons(fm, seq![am], function_key());
    lemma_lookup_cons(fm, seq![am], args_key());
    lemma_lookup_cons(am, Seq::<(Seq<char>, JsonData)>::empty(), args_key());
    assert(id_key().len() == 2 && function_key().len() == 8 && args_key().len() == 4);
    assert forall|i: int, j: int| 0 <= i < j < ms.len() implies (#[trigger] ms[i].0) != (
    #[trigger] ms[j].0) by {
        assert(ms[0].0.len() == 2 && ms[1].0.len() == 8 && ms[2].0.len() == 4);
    }
    lemma_distinct_keys_count(ms, id_key());
    lemma_distinct_keys_count(ms, function_key());
    lemma_distinct_keys_count(ms, args_key());
    assert(obj_lookup(ms, id_key()) == Some(JsonData::Text(r.id)));
    assert(obj_lookup(ms, function_key()) == Some(JsonData::Text(r.function)));
    assert(obj_lookup(ms, args_key()) == Some(r.args));
    assert(request_of_json(d) == Some(r));
}

/// The round-trip law of responses: reading the rendering of any
/// response whose result the machine can hold gives back exactly that
/// response, member for member.
pub proof fn lemma_response_round_trip(r: ResponseData)
    requires
        r.result matches Some(v) ==> bounded(v),
    ensures
        decode_response_line(encode_response_data(r)) == Some(r),
{
    let idm = (id_key(), JsonData::Text(r.id));
    let sm = (success_key(), JsonData::Bool(r.success));
    let ms = response_members(r);
    let d = JsonData::Object(ms);
    assert(id_key().len() == 2 && success_key().len() == 7 && result_key().len() == 6
        && error_key().len() == 5);
    match (r.result, r.error) {
        (Option::<JsonData>::None, Option::<Seq<char>>::None) => {
            assert(ms == seq![idm, sm]);
            assert(bounded(d)) by {
                assert(forall|k: int| 0 <= k < ms.len() ==> bounded(#[trigger] ms[k].1));
            }
            lemma_wire_round_trip(d);
            assert forall|i: int, j: int| 0 <= i < j < ms.len() implies (#[trigger] ms[i].0) != (
            #[trigger] ms[j].0) by {
                assert(ms[0].0.len() == 2 && ms[1].0.len() == 7);
            }
            lemma_distinct_keys_count(ms, id_key());
            lemma_distinct_keys_count(ms, success_key());
            lemma_distinct_keys_count(ms, result_key());
            lemma_distinct_keys_count(ms, error_key());
            assert(ms =~= seq![idm] + seq![sm]);
            assert(seq![sm] =~= seq![sm] + Seq::<(Seq<char>, JsonData)>::empty());
            lemma_lookup_cons(idm, seq![sm], id_key());
            lemma_lookup_cons(idm, seq![sm], success_key());
            lemma_lookup_cons(idm, seq![sm], result_key());
            lemma_lookup_cons(idm, seq![sm], error_key());
            lemma_lookup_cons(sm, Seq::<(Seq<char>, JsonData)>::empty(), success_key());
            lemma_lookup_cons(sm, Seq::<(Seq<char>, JsonData)>::empty(), result_key());
            lemma_lookup_cons(sm, Seq::<(Seq<char>, JsonData)>::empty(), error_key());
            assert(obj_lookup(ms, id_key()) == Some(JsonData::Text(r.id)));
            assert(obj_lookup(ms, success_key()) == Some(JsonData::Bool(r.success)));
            assert(obj_lookup(ms, result_key()) is None);
            assert(obj_lookup(ms, error_key()) is None);
            assert(response_of_json(d) == Some(r));
        },
        (Option::<JsonData>::Some(v), Option::<Seq<char>>::None) => {
            let rm = (result_key(), v);
            assert(ms == seq![idm, sm, rm]);
            assert(bounded(d)) by {
                assert(forall|k: int| 0 <= k < ms.len() ==> bounded(#[trigger] ms[k].1));
            }
            lemma_wire_round_trip(d);
            assert forall|i: int, j: int| 0 <= i < j < ms.len() implies (#[trigger] ms[i].0) != (
            #[trigger] ms[j].0) by {
                assert(ms[0].0.len() == 2 && ms[1].0.len() == 7 && ms[2].0.len() == 6);
            }
            lemma_distinct_keys_count(ms, id_key());
            lemma_distinct_keys_count(ms, success_key());
            lemma_distinct_keys_count(ms, result_key());
            lemma_distinct_keys_count(ms, error_key());
            assert(ms =~= seq![idm] + seq![sm, rm]);
            assert(seq![sm, rm] =~= seq![sm] + seq![rm]);
            assert(seq![rm] =~= seq![rm] + Seq::<(Seq<char>, JsonData)>::empty());
            lemma_lookup_cons(idm, seq![sm, rm], id_key());
            lemma_lookup_cons(idm, seq![sm, rm], success_key());
            lemma_lookup_cons(idm, seq![sm, rm], result_key());
            lemma_lookup_cons(idm, seq![sm, rm], error_key());
            lemma_lookup_cons(sm, seq![rm], success_key());
            lemma_lookup_cons(sm, seq![rm], result_key());
            lemma_lookup_cons(sm, seq![rm], error_key());
            lemma_lookup_cons(rm, Seq::<(Seq<char>, JsonData)>::empty(), result_key());
            lemma_lookup_cons(rm, Seq::<(Seq<char>, JsonData)>::empty(), error_key());
            assert(obj_lookup(ms, id_key()) == Some(JsonData::Text(r.id)));
            assert(obj_lookup(ms, success_key()) == Some(JsonData::Bool(r.success)));
            assert(obj_lookup(ms, result_key()) == Some(v));
            assert(obj_lookup(ms, error_key()) is None);
            assert(response_of_json(d) == Some(r));
        },
        (Option::<JsonData>::None, Option::<Seq<char>>::Some(e)) => {
            let em = (error_key(), JsonData::Text(e));
            assert(ms == seq![idm, sm, em]);
            assert(bounded(d)) by {
                assert(forall|k: int| 0 <= k < ms.len() ==> bounded(#[trigger] ms[k].1));
            }
            lemma_wire_round_trip(d);
            assert forall|i: int, j: int| 0 <= i < j < ms.len() implies (#[trigger] ms[i].0) != (
            #[trigger] ms[j].0) by {
                assert(ms[0].0.len() == 2 && ms[1].0.len() == 7 && ms[2].0.len() == 5);
            }
            lemma_distinct_keys_count(ms, id_key());
            lemma_distinct_keys_count(ms, success_key());
            lemma_distinct_keys_count(ms, result_key());
            lemma_distinct_keys_count(ms, error_key());
            assert(ms =~= seq![idm] + seq![sm, em]);
            assert(seq![sm, em] =~= seq![sm] + seq![em]);
            assert(seq![em] =~= seq![em] + Seq::<(Seq<char>, JsonData)>::empty());
            lemma_lookup_cons(idm, seq![sm, em], id_key());
            lemma_lookup_cons(idm, seq![sm, em], success_key());
            lemma_lookup_cons(idm, seq![sm, em], result_key());
            lemma_lookup_cons(idm, seq![sm, em], error_key());
            lemma_lookup_cons(sm, seq![em], success_key());
            lemma_lookup_cons(sm, seq![em], result_key());
            lemma_lookup_cons(sm, seq![em], error_key());
            lemma_lookup_cons(em, Seq::<(Seq<char>, JsonData)>::empty(), result_key());
            lemma_lookup_cons(em, Seq::<(Seq<char>, JsonData)>::empty(), error_key());
            assert(obj_lookup(ms, id_key()) == Some(JsonData::Text(r.id)));
            assert(obj_lookup(ms, success_key()) == Some(JsonData::Bool(r.success)));
            assert(obj_lookup(ms, result_key()) is None);
            assert(obj_lookup(ms, error_key()) == Some(JsonData::Text(e)));
            assert(response_of_json(d) == Some(r));
        },
        (Option::<JsonData>::Some(v), Option::<Seq<char>>::Some(e)) => {
            let rm = (result_key(), v);
            let em = (error_key(), JsonData::Text(e));
            assert(ms == seq![idm, sm, rm, em]);
            assert(bounded(d)) by {
                assert(forall|k: int| 0 <= k < ms.len() ==> bounded(#[trigger] ms[k].1));
            }
            lemma_wire_round_trip(d);
            assert forall|i: int, j: int| 0 <= i < j < ms.len() implies (#[trigger] ms[i].0) != (
            #[trigger] ms[j].0) by {
                assert(ms[0].0.len() == 2 && ms[1].0.len() == 7 && ms[2].0.len() == 6 && ms[3].0.len()
                    == 5);
            }
            lemma_distinct_keys_count(ms, id_key());
            lemma_distinct_keys_count(ms, success_key());
            lemma_distinct_keys_count(ms, result_key());
            lemma_distinct_keys_count(ms, error_key());
            assert(ms =~= seq![idm] + seq![sm, rm, em]);
            assert(seq![sm, rm, em] =~= seq![sm] + seq![rm, em]);
            assert(seq![rm, em] =~= seq![rm] + seq![em]);
            assert(seq![em] =~= seq![em] + Seq::<(Seq<char>, JsonData)>::empty());
            lemma_lookup_cons(idm, seq![sm, rm, em], id_key());
            lemma_lookup_cons(idm, seq![sm, rm, em], success_key());
            lemma_lookup_cons(idm, seq![sm, rm, em], result_key());
            lemma_lookup_cons(idm, seq![sm, rm, em], error_key());
            lemma_lookup_cons(sm, seq![rm, em], success_key());
            lemma_lookup_cons(sm, seq![rm, em], result_key());
            lemma_lookup_cons(sm, seq![rm, em], error_key());
            lemma_lookup_cons(rm, seq![em], result_key());
            lemma_lookup_cons(rm, seq![em], error_key());
            lemma_lookup_cons(em, Seq::<(Seq<char>, JsonData)>::empty(), error_key());
            assert(obj_lookup(ms, id_key()) == Some(JsonData::Text(r.id)));
            assert(obj_lookup(ms, success_key()) == Some(JsonData::Bool(r.success)));
            assert(obj_lookup(ms, result_key()) == Some(v));
            assert(obj_lookup(ms, error_key()) == Some(JsonData::Text(e)));
            assert(response_of_json(d) == Some(r));
        },
    }
}

} // verus!
