//! The two wire messages: a request written to the worker and a response
//! read back from it, with their renderings and readers.
//!
//! A request is rendered as one object holding `id`, `function` and
//! `args`. A response is an object holding `id` and `success`, a `result`
//! member exactly when one was produced, and an `error` member exactly
//! when a message was reported. A reader accepts any line of the wire
//! grammar whose object carries the required members, whatever else it
//! holds; of a member written twice, the first occurrence counts.

use vstd::prelude::*;
use crate::json::{JsonValue, JsonData, clone_json, data_of_members, lemma_data_of_members_index};
use crate::encode::{encode_data, encode_text, encode_members, write_json, write_text};
use crate::parse::parse_json;
use crate::decode::parse_line;
use crate::text::string_from_chars;
use vstd::string::StringExecFns;

verus! {

broadcast use vstd::string::group_string_axioms;

/// One function call handed to the worker.
#[derive(Debug)]
pub struct IpcRequest {
    /// The token that the matching response must carry.
    pub id: String,
    /// The name of the function to run.
    pub function: String,
    /// The structured arguments of the call.
    pub args: JsonValue,
}

/// One answer read back from the worker.
#[derive(Debug)]
pub struct IpcResponse {
    /// The token of the request this answers.
    pub id: String,
    /// Whether the worker carried the call out.
    pub success: bool,
    /// The produced value, when there is one.
    pub result: Option<JsonValue>,
    /// The reported failure message, when there is one.
    pub error: Option<String>,
}

/// The mathematical form of a request.
pub struct RequestData {
    pub id: Seq<char>,
    pub function: Seq<char>,
    pub args: JsonData,
}

/// The mathematical form of a response.
pub struct ResponseData {
    pub id: Seq<char>,
    pub success: bool,
    pub result: Option<JsonData>,
    pub error: Option<Seq<char>>,
}

impl View for IpcRequest {
    type V = RequestData;

    open spec fn view(&self) -> RequestData {
        RequestData { id: self.id@, function: self.function@, args: self.args@ }
    }
}

impl View for IpcResponse {
    type V = ResponseData;

    open spec fn view(&self) -> ResponseData {
        ResponseData {
            id: self.id@,
            success: self.success,
            result: match self.result {
                Option::None => Option::None,
                Option::Some(v) => Option::Some(v@),
            },
            error: match self.error {
                Option::None => Option::None,
                Option::Some(e) => Option::Some(e@),
            },
        }
    }
}

impl Clone for IpcRequest {
    /// A copy that the mathematical model cannot tell from the original.
    fn clone(&self) -> (r: Self)
        ensures
            r@ == self@,
    {
        IpcRequest {
            id: self.id.clone(),
            function: self.function.clone(),
            args: clone_json(&self.args),
        }
    }
}

impl Clone for IpcResponse {
    /// A copy that the mathematical model cannot tell from the original.
    fn clone(&self) -> (r: Self)
        ensures
            r@ == self@,
    {
        IpcResponse {
            id: self.id.clone(),
            success: self.success,
            result: match &self.result {
                Option::None => Option::None,
                Option::Some(v) => Option::Some(clone_json(v)),
            },
            error: match &self.error {
                Option::None => Option::None,
                Option::Some(e) => Option::Some(e.clone()),
            },
        }
    }
}

pub open spec fn id_key() -> Seq<char> {
    seq!['i', 'd']
}

pub open spec fn function_key() -> Seq<char> {
    seq!['f', 'u', 'n', 'c', 't', 'i', 'o', 'n']
}

pub open spec fn args_key() -> Seq<char> {
    seq!['a', 'r', 'g', 's']
}

pub open spec fn success_key() -> Seq<char> {
    seq!['s', 'u', 'c', 'c', 'e', 's', 's']
}

pub open spec fn result_key() -> Seq<char> {
    seq!['r', 'e', 's', 'u', 'l', 't']
}

pub open spec fn error_key() -> Seq<char> {
    seq!['e', 'r', 'r', 'o', 'r']
}

/// The members of the object that renders a request.
pub open spec fn request_members(r: RequestData) -> Seq<(Seq<char>, JsonData)> {
    seq![
        (id_key(), JsonData::Text(r.id)),
        (function_key(), JsonData::Text(r.function)),
        (args_key(), r.args),
    ]
}

/// The one line that renders a request.
pub open spec fn encode_request_data(r: RequestData) -> Seq<char> {
    encode_data(JsonData::Object(request_members(r)))
}

/// The members of the object that renders a response: `result` appears
/// exactly when a value is present, `error` exactly when a message is.
pub open spec fn response_members(r: ResponseData) -> Seq<(Seq<char>, JsonData)> {
    let idm = (id_key(), JsonData::Text(r.id));
    let sm = (success_key(), JsonData::Bool(r.success));
    match (r.result, r.error) {
        (Option::None, Option::None) => seq![idm, sm],
        (Option::Some(v), Option::None) => seq![idm, sm, (result_key(), v)],
        (Option::None, Option::Some(e)) => seq![idm, sm, (error_key(), JsonData::Text(e))],
        (Option::Some(v), Option::Some(e)) => seq![
            idm,
            sm,
            (result_key(), v),
            (error_key(), JsonData::Text(e)),
        ],
    }
}

/// The one line that renders a response.
pub open spec fn encode_response_data(r: ResponseData) -> Seq<char> {
    encode_data(JsonData::Object(response_members(r)))
}

/// How many members carry the given key.
pub open spec fn key_count(members: Seq<(Seq<char>, JsonData)>, key: Seq<char>) -> int
    decreases members,
{
    if members.len() == 0 {
        0
    } else if members[0].0 == key {
        1 + key_count(members.drop_first(), key)
    } else {
        key_count(members.drop_first(), key)
    }
}

/// The value of the first member with the given key, if any.
pub open spec fn obj_lookup(members: Seq<(Seq<char>, JsonData)>, key: Seq<char>) -> Option<
    JsonData,
>
    decreases members,
{
    if members.len() == 0 {
        None
    } else if members[0].0 == key {
        Some(members[0].1)
    } else {
        obj_lookup(members.drop_first(), key)
    }
}

/// Reads a response out of a parsed value: an object whose `id` is text
/// and whose `success` is a boolean; `result` may hold anything, `error`
/// must be text where present; a recognized member written twice makes
/// the whole value unreadable; other members are ignored.
pub open spec fn response_of_json(d: JsonData) -> Option<ResponseData> {
    match d {
        JsonData::Object(ms) => if key_count(ms, id_key()) > 1 || key_count(ms, success_key()) > 1
            || key_count(ms, result_key()) > 1 || key_count(ms, error_key()) > 1 {
            None
        } else {
            match obj_lookup(ms, id_key()) {
            Some(JsonData::Text(idt)) => match obj_lookup(ms, success_key()) {
                Some(JsonData::Bool(b)) => match obj_lookup(ms, error_key()) {
                    None => Some(
                        ResponseData {
                            id: idt,
                            success: b,
                            result: obj_lookup(ms, result_key()),
                            error: None,
                        },
                    ),
                    Some(JsonData::Text(e)) => Some(
                        ResponseData {
                            id: idt,
                            success: b,
                            result: obj_lookup(ms, result_key()),
                            error: Some(e),
                        },
                    ),
                    Some(_) => None,
                },
                _ => None,
            },
            _ => None,
            }
        },
        _ => None,
    }
}

/// Reads a request out of a parsed value: an object whose `id` and
/// `function` are text and which carries an `args` member; a recognized
/// member written twice makes the whole value unreadable.
pub open spec fn request_of_json(d: JsonData) -> Option<RequestData> {
    match d {
        JsonData::Object(ms) => if key_count(ms, id_key()) > 1 || key_count(ms, function_key()) > 1
            || key_count(ms, args_key()) > 1 {
            None
        } else {
            match obj_lookup(ms, id_key()) {
                Some(JsonData::Text(idt)) => match obj_lookup(ms, function_key()) {
                    Some(JsonData::Text(f)) => match obj_lookup(ms, args_key()) {
                        Some(a) => Some(RequestData { id: idt, function: f, args: a }),
                        None => None,
                    },
                    _ => None,
                },
                _ => None,
            }
        },
        _ => None,
    }
}

/// What a whole line of text means as a response, if anything.
pub open spec fn decode_response_line(line: Seq<char>) -> Option<ResponseData> {
    match parse_json(line) {
        None => None,
        Some(d) => response_of_json(d),
    }
}

/// What a whole line of text means as a request, if anything.
pub open spec fn decode_request_line(line: Seq<char>) -> Option<RequestData> {
    match parse_json(line) {
        None => None,
        Some(d) => request_of_json(d),
    }
}

/// Renders a request as its one line of text, newline not included.
pub fn encode_request(req: &IpcRequest) -> (line: String)
    ensures
        line@ == encode_request_data(req@),
{
    let mut out: Vec<char> = Vec::new();
    out.push('{');
    write_text("id", &mut out);
    out.push(':');
    write_text(req.id.as_str(), &mut out);
    out.push(',');
    write_text("function", &mut out);
    out.push(':');
    write_text(req.function.as_str(), &mut out);
    out.push(',');
    write_text("args", &mut out);
    out.push(':');
    write_json(&req.args, &mut out);
    out.push('}');
    proof {
        reveal_strlit("id");
        reveal_strlit("function");
        reveal_strlit("args");
        assert("id"@ =~= id_key());
        assert("function"@ =~= function_key());
        assert("args"@ =~= args_key());
        let m0 = (id_key(), JsonData::Text(req@.id));
        let m1 = (function_key(), JsonData::Text(req@.function));
        let m2 = (args_key(), req@.args);
        let ms = request_members(req@);
        assert(ms =~= seq![m0, m1, m2]);
        assert(ms.drop_first() =~= seq![m1, m2]);
        assert(seq![m1, m2].drop_first() =~= seq![m2]);
        assert(encode_members(seq![m2]) == encode_text(args_key()) + seq![':'] + encode_data(
            req@.args,
        ));
        assert(encode_members(seq![m1, m2]) == encode_text(function_key()) + seq![':']
            + encode_data(JsonData::Text(req@.function)) + seq![','] + encode_members(seq![m2]));
        assert(encode_members(ms) == encode_text(id_key()) + seq![':'] + encode_data(
            JsonData::Text(req@.id),
        ) + seq![','] + encode_members(seq![m1, m2]));
        assert(out@ =~= seq!['{'] + encode_members(ms) + seq!['}']);
    }
    string_from_chars(&out)
}

/// Renders a response as its one line of text, newline not included.
#[verifier::rlimit(100)]
pub fn encode_response(resp: &IpcResponse) -> (line: String)
    ensures
        line@ == encode_response_data(resp@),
{
    let mut out: Vec<char> = Vec::new();
    out.push('{');
    write_text("id", &mut out);
    out.push(':');
    write_text(resp.id.as_str(), &mut out);
    out.push(',');
    write_text("success", &mut out);
    out.push(':');
    if resp.success {
        out.push('t');
        out.push('r');
        out.push('u');
        out.push('e');
    } else {
        out.push('f');
        out.push('a');
        out.push('l');
        out.push('s');
        out.push('e');
    }
    match &resp.result {
        Option::Some(v) => {
            out.push(',');
            write_text("result", &mut out);
            out.push(':');
            write_json(v, &mut out);
        },
        Option::None => {},
    }
    match &resp.error {
        Option::Some(e) => {
            out.push(',');
            write_text("error", &mut out);
            out.push(':');
            write_text(e.as_str(), &mut out);
        },
        Option::None => {},
    }
    out.push('}');
    proof {
        reveal_strlit("id");
        reveal_strlit("success");
        reveal_strlit("result");
        reveal_strlit("error");
        assert("id"@ =~= id_key());
        assert("success"@ =~= success_key());
        assert("result"@ =~= result_key());
        assert("error"@ =~= error_key());
        let idm = (id_key(), JsonData::Text(resp@.id));
        let sm = (success_key(), JsonData::Bool(resp@.success));
        let ms = response_members(resp@);
        assert(encode_data(JsonData::Bool(resp@.success)) == if resp@.success {
            seq!['t', 'r', 'u', 'e']
        } else {
            seq!['f', 'a', 'l', 's', 'e']
        });
        match (resp@.result, resp@.error) {
            (Option::None, Option::None) => {
                assert(ms =~= seq![idm, sm]);
                assert(ms.drop_first() =~= seq![sm]);
                assert(encode_members(seq![sm]) == encode_text(success_key()) + seq![':']
                    + encode_data(JsonData::Bool(resp@.success)));
                assert(encode_members(ms) == encode_text(id_key()) + seq![':'] + encode_data(
                    JsonData::Text(resp@.id),
                ) + seq![','] + encode_members(seq![sm]));
                assert(out@ =~= seq!['{'] + encode_members(ms) + seq!['}']);
            },
            (Option::Some(v), Option::None) => {
                let rm = (result_key(), v);
                assert(ms =~= seq![idm, sm, rm]);
                assert(ms.drop_first() =~= seq![sm, rm]);
                assert(seq![sm, rm].drop_first() =~= seq![rm]);
                assert(encode_members(seq![rm]) == encode_text(result_key()) + seq![':']
                    + encode_data(v));
                assert(encode_members(seq![sm, rm]) == encode_text(success_key()) + seq![':']
                    + encode_data(JsonData::Bool(resp@.success)) + seq![','] + encode_members(
                    seq![rm],
                ));
                assert(encode_members(ms) == encode_text(id_key()) + seq![':'] + encode_data(
                    JsonData::Text(resp@.id),
                ) + seq![','] + encode_members(seq![sm, rm]));
                assert(out@ =~= seq!['{'] + encode_members(ms) + seq!['}']);
            },
            (Option::None, Option::Some(e)) => {
                let em = (error_key(), JsonData::Text(e));
                assert(ms =~= seq![idm, sm, em]);
                assert(ms.drop_first() =~= seq![sm, em]);
                assert(seq![sm, em].drop_first() =~= seq![em]);
                assert(encode_members(seq![em]) == encode_text(error_key()) + seq![':']
                    + encode_data(JsonData::Text(e)));
                assert(encode_members(seq![sm, em]) == encode_text(success_key()) + seq![':']
                    + encode_data(JsonData::Bool(resp@.success)) + seq![','] + encode_members(
                    seq![em],
                ));
                assert(encode_members(ms) == encode_text(id_key()) + seq![':'] + encode_data(
                    JsonData::Text(resp@.id),
                ) + seq![','] + encode_members(seq![sm, em]));
                assert(out@ =~= seq!['{'] + encode_members(ms) + seq!['}']);
            },
            (Option::Some(v), Option::Some(e)) => {
                let rm = (result_key(), v);
                let em = (error_key(), JsonData::Text(e));
                assert(ms =~= seq![idm, sm, rm, em]);
                assert(ms.drop_first() =~= seq![sm, rm, em]);
                assert(seq![sm, rm, em].drop_first() =~= seq![rm, em]);
                assert(seq![rm, em].drop_first() =~= seq![em]);
                assert(encode_members(seq![em]) == encode_text(error_key()) + seq![':']
                    + encode_data(JsonData::Text(e)));
                assert(encode_members(seq![rm, em]) == encode_text(result_key()) + seq![':']
                    + encode_data(v) + seq![','] + encode_members(seq![em]));
                assert(encode_members(seq![sm, rm, em]) == encode_text(success_key()) + seq![':']
                    + encode_data(JsonData::Bool(resp@.success)) + seq![','] + encode_members(
                    seq![rm, em],
                ));
                assert(encode_members(ms) == encode_text(id_key()) + seq![':'] + encode_data(
                    JsonData::Text(resp@.id),
                ) + seq![','] + encode_members(seq![sm, rm, em]));
                assert(out@ =~= seq!['{'] + encode_members(ms) + seq!['}']);
            },
        }
    }
    string_from_chars(&out)
}

/// The value of the first member with the given key, copied out.
/// How many members carry the given key.
fn count_key(members: &Vec<(String, JsonValue)>, key: &String) -> (r: usize)
    ensures
        r as int == key_count(data_of_members(members@), key@),
{
    let mut n: usize = 0;
    let mut i: usize = 0;
    proof {
        assert(members@.skip(0) =~= members@);
    }
    while i < members.len()
        invariant
            i <= members.len(),
            n <= i,
            n as int + key_count(data_of_members(members@.skip(i as int)), key@) == key_count(
                data_of_members(members@),
                key@,
            ),
        decreases members.len() - i,
    {
        proof {
            let ghost rem = members@.skip(i as int);
            lemma_data_of_members_index(rem, 0);
            assert(data_of_members(rem).drop_first() =~= data_of_members(rem.drop_first()));
            assert(rem.drop_first() =~= members@.skip(i + 1 as int));
        }
        if members[i].0 == *key {
            n = n + 1;
        }
        i = i + 1;
    }
    proof {
        assert(members@.skip(i as int) =~= Seq::<(String, JsonValue)>::empty());
        crate::json::lemma_data_of_members_len(members@.skip(i as int));
    }
    n
}

fn lookup_member(members: &Vec<(String, JsonValue)>, key: &String) -> (r: Option<JsonValue>)
    ensures
        match r {
            None => obj_lookup(data_of_members(members@), key@) is None,
            Some(v) => obj_lookup(data_of_members(members@), key@) == Some(v@),
        },
{
    let mut i: usize = 0;
    proof {
        assert(members@.skip(0) =~= members@);
    }
    loop
        invariant
            i <= members.len(),
            obj_lookup(data_of_members(members@), key@) == obj_lookup(
                data_of_members(members@.skip(i as int)),
                key@,
            ),
        ensures
            i <= members.len(),
            obj_lookup(data_of_members(members@), key@) == obj_lookup(
                data_of_members(members@.skip(i as int)),
                key@,
            ),
            i == members.len() || members@[i as int].0@ == key@,
        decreases members.len() - i,
    {
        if i == members.len() {
            break;
        }
        if members[i].0 == *key {
            break;
        }
        proof {
            let ghost rem = members@.skip(i as int);
            lemma_data_of_members_index(rem, 0);
            assert(data_of_members(rem).drop_first() =~= data_of_members(rem.drop_first()));
            assert(rem.drop_first() =~= members@.skip(i + 1 as int));
            assert(obj_lookup(data_of_members(rem), key@) == obj_lookup(
                data_of_members(members@.skip(i + 1 as int)),
                key@,
            ));
        }
        i = i + 1;
    }
    if i == members.len() {
        proof {
            assert(members@.skip(i as int) =~= Seq::<(String, JsonValue)>::empty());
            crate::json::lemma_data_of_members_len(members@.skip(i as int));
        }
        None
    } else {
        proof {
            lemma_data_of_members_index(members@.skip(i as int), 0);
        }
        Some(clone_json(&members[i].1))
    }
}

/// Reads one line as a response, exactly as `decode_response_line`
/// defines it.
pub fn decode_response(line: &str) -> (r: Option<IpcResponse>)
    ensures
        match r {
            None => decode_response_line(line@) is None,
            Some(resp) => decode_response_line(line@) == Some(resp@),
        },
{
    let parsed = parse_line(line);
    match parsed {
        Option::None => None,
        Option::Some(v) => match v {
            JsonValue::Object(ms) => {
                let idk = String::from_str("id");
                let suck = String::from_str("success");
                let resk = String::from_str("result");
                let errk = String::from_str("error");
                proof {
                    reveal_strlit("id");
                    reveal_strlit("success");
                    reveal_strlit("result");
                    reveal_strlit("error");
                    assert(idk@ =~= id_key());
                    assert(suck@ =~= success_key());
                    assert(resk@ =~= result_key());
                    assert(errk@ =~= error_key());
                }
                if count_key(&ms, &idk) > 1 || count_key(&ms, &suck) > 1 || count_key(&ms, &resk)
                    > 1 || count_key(&ms, &errk) > 1 {
                    return None;
                }
                let idm = lookup_member(&ms, &idk);
                match idm {
                    Option::Some(JsonValue::Text(idt)) => {
                        let sucm = lookup_member(&ms, &suck);
                        match sucm {
                            Option::Some(JsonValue::Bool(b)) => {
                                let errm = lookup_member(&ms, &errk);
                                let resm = lookup_member(&ms, &resk);
                                match errm {
                                    Option::None => Some(
                                        IpcResponse {
                                            id: idt,
                                            success: b,
                                            result: resm,
                                            error: Option::None,
                                        },
                                    ),
                                    Option::Some(JsonValue::Text(e)) => Some(
                                        IpcResponse {
                                            id: idt,
                                            success: b,
                                            result: resm,
                                            error: Option::Some(e),
                                        },
                                    ),
                                    Option::Some(_) => None,
                                }
                            },
                            _ => None,
                        }
                    },
                    _ => None,
                }
            },
            _ => None,
        },
    }
}

/// Reads one line as a request, exactly as `decode_request_line`
/// defines it.
pub fn decode_request(line: &str) -> (r: Option<IpcRequest>)
    ensures
        match r {
            None => decode_request_line(line@) is None,
            Some(req) => decode_request_line(line@) == Some(req@),
        },
{
    let parsed = parse_line(line);
    match parsed {
        Option::None => None,
        Option::Some(v) => match v {
            JsonValue::Object(ms) => {
                let idk = String::from_str("id");
                let funk = String::from_str("function");
                let argk = String::from_str("args");
                proof {
                    reveal_strlit("id");
                    reveal_strlit("function");
                    reveal_strlit("args");
                    assert(idk@ =~= id_key());
                    assert(funk@ =~= function_key());
                    assert(argk@ =~= args_key());
                }
                if count_key(&ms, &idk) > 1 || count_key(&ms, &funk) > 1 || count_key(&ms, &argk)
                    > 1 {
                    return None;
                }
                let idm = lookup_member(&ms, &idk);
                match idm {
                    Option::Some(JsonValue::Text(idt)) => {
                        let funm = lookup_member(&ms, &funk);
                        match funm {
                            Option::Some(JsonValue::Text(f)) => {
                                let argm = lookup_member(&ms, &argk);
                                match argm {
                                    Option::Some(a) => Some(
                                        IpcRequest { id: idt, function: f, args: a },
                                    ),
                                    Option::None => None,
                                }
                            },
                            _ => None,
                        }
                    },
                    _ => None,
                }
            },
            _ => None,
        },
    }
}

} // verus!
