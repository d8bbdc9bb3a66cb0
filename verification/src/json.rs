use vstd::prelude::*;

verus! {

broadcast use vstd::seq::axiom_seq_index_decreases, vstd::std_specs::vec::axiom_vec_decreases_to_view;

/// A structured wire value: the tree of nulls, booleans, integers, text,
/// arrays and objects that a request carries as arguments and a response
/// carries as its result. Object members keep their written order.
#[derive(Debug)]
pub enum JsonValue {
    Null,
    Bool(bool),
    Number(i64),
    Text(String),
    Array(Vec<JsonValue>),
    Object(Vec<(String, JsonValue)>),
}

/// The mathematical form of a wire value, used by all contracts.
pub enum JsonData {
    Null,
    Bool(bool),
    Number(int),
    Text(Seq<char>),
    Array(Seq<JsonData>),
    Object(Seq<(Seq<char>, JsonData)>),
}

pub open spec fn data_of(v: JsonValue) -> JsonData
    decreases v,
{
    match v {
        JsonValue::Null => JsonData::Null,
        JsonValue::Bool(b) => JsonData::Bool(b),
        JsonValue::Number(n) => JsonData::Number(n as int),
        JsonValue::Text(s) => JsonData::Text(s@),
        JsonValue::Array(elems) => JsonData::Array(data_of_seq(elems@)),
        JsonValue::Object(members) => JsonData::Object(data_of_members(members@)),
    }
}

pub open spec fn data_of_seq(s: Seq<JsonValue>) -> Seq<JsonData>
    decreases s,
{
    if s.len() == 0 {
        Seq::empty()
    } else {
        seq![data_of(s[0])] + data_of_seq(s.drop_first())
    }
}

pub open spec fn data_of_members(s: Seq<(String, JsonValue)>) -> Seq<(Seq<char>, JsonData)>
    decreases s,
{
    if s.len() == 0 {
        Seq::empty()
    } else {
        seq![(s[0].0@, data_of(s[0].1))] + data_of_members(s.drop_first())
    }
}

impl View for JsonValue {
    type V = JsonData;

    open spec fn view(&self) -> JsonData {
        data_of(*self)
    }
}

/// Whether every number in the tree fits the machine representation; a
/// value built in executable code always does.
pub open spec fn bounded(d: JsonData) -> bool
    decreases d,
{
    match d {
        JsonData::Null => true,
        JsonData::Bool(_) => true,
        JsonData::Number(n) => i64::MIN <= n <= i64::MAX,
        JsonData::Text(_) => true,
        JsonData::Array(elems) => forall|i: int| 0 <= i < elems.len() ==> bounded(#[trigger] elems[i]),
        JsonData::Object(members) => forall|i: int|
            0 <= i < members.len() ==> bounded(#[trigger] members[i].1),
    }
}

/// A copy of a value, equal to it in the mathematical model.
pub fn clone_json(v: &JsonValue) -> (r: JsonValue)
    ensures
        r@ == v@,
    decreases v,
{
    match v {
        JsonValue::Null => JsonValue::Null,
        JsonValue::Bool(b) => JsonValue::Bool(*b),
        JsonValue::Number(n) => JsonValue::Number(*n),
        JsonValue::Text(s) => JsonValue::Text(s.clone()),
        JsonValue::Array(elems) => {
            let r = JsonValue::Array(clone_items(elems, 0));
            proof {
                assert(elems@.skip(0) =~= elems@);
            }
            r
        },
        JsonValue::Object(members) => {
            let r = JsonValue::Object(clone_entries(members, 0));
            proof {
                assert(members@.skip(0) =~= members@);
            }
            r
        },
    }
}

fn clone_items(elems: &Vec<JsonValue>, i: usize) -> (r: Vec<JsonValue>)
    requires
        i <= elems.len(),
    ensures
        data_of_seq(r@) == data_of_seq(elems@.skip(i as int)),
    decreases elems, elems.len() - i,
{
    if i == elems.len() {
        let r: Vec<JsonValue> = Vec::new();
        proof {
            assert(r@ =~= Seq::<JsonValue>::empty());
            assert(elems@.skip(i as int) =~= Seq::<JsonValue>::empty());
        }
        r
    } else {
        let head = clone_json(&elems[i]);
        let mut rest = clone_items(elems, i + 1);
        let ghost rest_view = rest@;
        rest.insert(0, head);
        proof {
            assert(rest@.drop_first() =~= rest_view);
            assert(data_of_seq(rest@) == seq![head@] + data_of_seq(rest_view));
            assert(elems@.skip(i as int).drop_first() =~= elems@.skip(i + 1 as int));
            lemma_data_of_seq_index(elems@.skip(i as int), 0);
            assert(data_of_seq(elems@.skip(i as int)) == seq![data_of(elems@[i as int])]
                + data_of_seq(elems@.skip(i + 1 as int)));
            assert(data_of_seq(rest@) =~= data_of_seq(elems@.skip(i as int)));
        }
        rest
    }
}

fn clone_entries(members: &Vec<(String, JsonValue)>, i: usize) -> (r: Vec<(String, JsonValue)>)
    requires
        i <= members.len(),
    ensures
        data_of_members(r@) == data_of_members(members@.skip(i as int)),
    decreases members, members.len() - i,
{
    if i == members.len() {
        let r: Vec<(String, JsonValue)> = Vec::new();
        proof {
            assert(r@ =~= Seq::<(String, JsonValue)>::empty());
            assert(members@.skip(i as int) =~= Seq::<(String, JsonValue)>::empty());
        }
        r
    } else {
        let key = members[i].0.clone();
        let val = clone_json(&members[i].1);
        let mut rest = clone_entries(members, i + 1);
        let ghost rest_view = rest@;
        rest.insert(0, (key, val));
        proof {
            assert(rest@.drop_first() =~= rest_view);
            assert(data_of_members(rest@) == seq![(key@, val@)] + data_of_members(rest_view));
            assert(members@.skip(i as int).drop_first() =~= members@.skip(i + 1 as int));
            lemma_data_of_members_index(members@.skip(i as int), 0);
            assert(data_of_members(members@.skip(i as int)) == seq![(members@[i as int].0@,
                data_of(members@[i as int].1))] + data_of_members(members@.skip(i + 1 as int)));
            assert(data_of_members(rest@) =~= data_of_members(members@.skip(i as int)));
        }
        rest
    }
}

impl Clone for JsonValue {
    /// A copy that the mathematical model cannot tell from the original.
    fn clone(&self) -> (r: Self)
        ensures
            r@ == self@,
    {
        clone_json(self)
    }
}

pub proof fn lemma_data_of_seq_len(s: Seq<JsonValue>)
    ensures
        data_of_seq(s).len() == s.len(),
    decreases s,
{
    if s.len() > 0 {
        lemma_data_of_seq_len(s.drop_first());
    }
}

pub proof fn lemma_data_of_seq_index(s: Seq<JsonValue>, i: int)
    requires
        0 <= i < s.len(),
    ensures
        data_of_seq(s).len() == s.len(),
        data_of_seq(s)[i] == data_of(s[i]),
    decreases s,
{
    lemma_data_of_seq_len(s);
    if i > 0 {
        lemma_data_of_seq_index(s.drop_first(), i - 1);
    }
}

pub proof fn lemma_data_of_members_len(s: Seq<(String, JsonValue)>)
    ensures
        data_of_members(s).len() == s.len(),
    decreases s,
{
    if s.len() > 0 {
        lemma_data_of_members_len(s.drop_first());
    }
}

pub proof fn lemma_data_of_members_index(s: Seq<(String, JsonValue)>, i: int)
    requires
        0 <= i < s.len(),
    ensures
        data_of_members(s).len() == s.len(),
        data_of_members(s)[i] == (s[i].0@, data_of(s[i].1)),
    decreases s,
{
    lemma_data_of_members_len(s);
    if i > 0 {
        lemma_data_of_members_index(s.drop_first(), i - 1);
    }
}

} // verus!
