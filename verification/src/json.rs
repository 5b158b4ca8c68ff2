//! The untyped tree that a script evaluator hands over: JSON values, their
//! mathematical view, and the lookups the decoders are written with.

use vstd::prelude::*;
use crate::text::str_eq;

verus! {

/// A JSON number, kept exactly as the payload wrote it. A number with a
/// fraction or an exponent is carried as the bits of its IEEE 754 double;
/// the host narrows it to whatever floating-point type it draws with.
#[derive(Debug, Clone, Copy, PartialEq, Eq, Structural)]
pub enum Number {
    /// A non-negative integer.
    PosInt(u64),
    /// A negative integer.
    NegInt(i64),
    /// The bit pattern of a finite double.
    Float(u64),
}

impl Number {
    /// The number as an unsigned integer, where the payload wrote one.
    pub open spec fn unsigned(self) -> Option<u64> {
        match self {
            Number::PosInt(n) => Some(n),
            _ => None,
        }
    }

    /// The number as an unsigned integer, where the payload wrote one.
    pub fn as_u64(&self) -> (r: Option<u64>)
        ensures
            r == self.unsigned(),
    {
        match self {
            Number::PosInt(n) => Some(*n),
            _ => None,
        }
    }
}

/// `value`, or the integer `default` where there is none.
pub open spec fn number_or(value: Option<Number>, default: u64) -> Number {
    match value {
        Some(n) => n,
        None => Number::PosInt(default),
    }
}

/// One `key: value` entry of a JSON object.
#[derive(Debug, PartialEq, Eq)]
pub struct Member {
    pub key: String,
    pub value: Json,
}

/// A JSON value. An object keeps its entries in a sequence; a lookup takes
/// the first entry with the key.
#[derive(Debug, PartialEq, Eq)]
pub enum Json {
    Null,
    Bool(bool),
    Number(Number),
    Str(String),
    Array(Vec<Json>),
    Object(Vec<Member>),
}

/// Mathematical view of a [`Member`].
pub struct MemberView {
    pub key: Seq<char>,
    pub value: JsonView,
}

/// Mathematical view of a [`Json`] value.
pub enum JsonView {
    Null,
    Bool(bool),
    Number(Number),
    Str(Seq<char>),
    Array(Seq<JsonView>),
    Object(Seq<MemberView>),
}

/// The view of one value.
pub open spec fn json_view(j: Json) -> JsonView
    decreases j,
{
    match j {
        Json::Null => JsonView::Null,
        Json::Bool(b) => JsonView::Bool(b),
        Json::Number(n) => JsonView::Number(n),
        Json::Str(s) => JsonView::Str(s@),
        Json::Array(a) => JsonView::Array(items_view(a@)),
        Json::Object(m) => JsonView::Object(members_view(m@)),
    }
}

/// The views of the items of an array, in order.
pub open spec fn items_view(a: Seq<Json>) -> Seq<JsonView>
    decreases a,
{
    if a.len() == 0 {
        Seq::empty()
    } else {
        items_view(a.drop_last()).push(json_view(a.last()))
    }
}

/// The views of the entries of an object, in order.
pub open spec fn members_view(m: Seq<Member>) -> Seq<MemberView>
    decreases m,
{
    if m.len() == 0 {
        Seq::empty()
    } else {
        members_view(m.drop_last()).push(
            MemberView { key: m.last().key@, value: json_view(m.last().value) },
        )
    }
}

impl View for Json {
    type V = JsonView;

    open spec fn view(&self) -> JsonView {
        json_view(*self)
    }
}

impl View for Member {
    type V = MemberView;

    open spec fn view(&self) -> MemberView {
        MemberView { key: self.key@, value: json_view(self.value) }
    }
}

/// `items_view` works item by item.
pub proof fn lemma_items_view(a: Seq<Json>)
    ensures
        items_view(a).len() == a.len(),
        forall|i: int| 0 <= i < a.len() ==> #[trigger] items_view(a)[i] == json_view(a[i]),
    decreases a.len(),
{
    if a.len() > 0 {
        lemma_items_view(a.drop_last());
    }
}

/// `members_view` works entry by entry.
pub proof fn lemma_members_view(m: Seq<Member>)
    ensures
        members_view(m).len() == m.len(),
        forall|i: int| 0 <= i < m.len() ==> #[trigger] members_view(m)[i] == m[i]@,
    decreases m.len(),
{
    if m.len() > 0 {
        lemma_members_view(m.drop_last());
    }
}

/// A value found by `member_lookup` is one of the entries' values, and so
/// structurally smaller than the entries.
pub proof fn lemma_lookup_decreases(members: Seq<MemberView>, key: Seq<char>)
    ensures
        member_lookup(members, key) matches Some(v) ==> decreases_to!(members => v),
    decreases members.len(),
{
    if members.len() == 0 {
    } else if members[0].key == key {
    } else {
        lemma_lookup_decreases(members.drop_first(), key);
    }
}

/// The value of the first entry of `members` whose key is `key`.
pub open spec fn member_lookup(members: Seq<MemberView>, key: Seq<char>) -> Option<JsonView>
    decreases members.len(),
{
    if members.len() == 0 {
        None
    } else if members[0].key == key {
        Some(members[0].value)
    } else {
        member_lookup(members.drop_first(), key)
    }
}

impl JsonView {
    /// The member `key` of an object; `None` for a missing key and for a
    /// value that is no object.
    pub open spec fn get(self, key: Seq<char>) -> Option<JsonView> {
        match self {
            JsonView::Object(members) => member_lookup(members, key),
            _ => None,
        }
    }

    /// What indexing by `key` gives: the member, or null where `get` finds
    /// none.
    pub open spec fn field(self, key: Seq<char>) -> JsonView {
        match self.get(key) {
            Some(v) => v,
            None => JsonView::Null,
        }
    }

    /// The characters of a string value.
    pub open spec fn str_value(self) -> Option<Seq<char>> {
        match self {
            JsonView::Str(s) => Some(s),
            _ => None,
        }
    }

    /// The truth value of a boolean.
    pub open spec fn bool_value(self) -> Option<bool> {
        match self {
            JsonView::Bool(b) => Some(b),
            _ => None,
        }
    }

    /// The number of a numeric value.
    pub open spec fn number_value(self) -> Option<Number> {
        match self {
            JsonView::Number(n) => Some(n),
            _ => None,
        }
    }

    /// The unsigned integer of a numeric value that holds one.
    pub open spec fn u64_value(self) -> Option<u64> {
        match self {
            JsonView::Number(n) => n.unsigned(),
            _ => None,
        }
    }

    /// The items of an array.
    pub open spec fn array_items(self) -> Option<Seq<JsonView>> {
        match self {
            JsonView::Array(items) => Some(items),
            _ => None,
        }
    }

    /// The entries of an object.
    pub open spec fn object_members(self) -> Option<Seq<MemberView>> {
        match self {
            JsonView::Object(members) => Some(members),
            _ => None,
        }
    }
}

impl Json {
    /// The member `key` of an object; `None` for a missing key and for a
    /// value that is no object.
    pub fn get(&self, key: &str) -> (r: Option<&Json>)
        ensures
            match r {
                Some(v) => self@.get(key@) == Some(v@) && decreases_to!(self => v),
                None => self@.get(key@) is None,
            },
    {
        match self {
            Json::Object(m) => {
                let ghost all = members_view(m@);
                proof {
                    lemma_members_view(m@);
                    assert(all.skip(0) =~= all);
                }
                let mut i: usize = 0;
                while i < m.len()
                    invariant
                        0 <= i <= m.len(),
                        all == members_view(m@),
                        self@.get(key@) == member_lookup(all, key@),
                        all.len() == m.len(),
                        forall|k: int| 0 <= k < m.len() ==> #[trigger] all[k] == m[k]@,
                        member_lookup(all, key@) == member_lookup(all.skip(i as int), key@),
                        *self == Json::Object(*m),
                    decreases m.len() - i,
                {
                    assert(all.skip(i as int)[0] == all[i as int]);
                    if str_eq(m[i].key.as_str(), key) {
                        return Some(&m[i].value);
                    }
                    assert(all.skip(i as int).drop_first() =~= all.skip(i as int + 1));
                    i = i + 1;
                }
                None
            },
            _ => None,
        }
    }

    /// The string of a string value.
    pub fn as_str(&self) -> (r: Option<&String>)
        ensures
            match r {
                Some(s) => self@.str_value() == Some(s@),
                None => self@.str_value() is None,
            },
    {
        match self {
            Json::Str(s) => Some(s),
            _ => None,
        }
    }

    /// The truth value of a boolean.
    pub fn as_bool(&self) -> (r: Option<bool>)
        ensures
            r == self@.bool_value(),
    {
        match self {
            Json::Bool(b) => Some(*b),
            _ => None,
        }
    }

    /// The number of a numeric value.
    pub fn as_number(&self) -> (r: Option<Number>)
        ensures
            r == self@.number_value(),
    {
        match self {
            Json::Number(n) => Some(*n),
            _ => None,
        }
    }

    /// The unsigned integer of a numeric value that holds one.
    pub fn as_u64(&self) -> (r: Option<u64>)
        ensures
            r == self@.u64_value(),
    {
        match self {
            Json::Number(n) => n.as_u64(),
            _ => None,
        }
    }

    /// The items of an array.
    pub fn as_array(&self) -> (r: Option<&Vec<Json>>)
        ensures
            match r {
                Some(a) => self@.array_items() == Some(items_view(a@)) && decreases_to!(self => a),
                None => self@.array_items() is None,
            },
    {
        match self {
            Json::Array(a) => Some(a),
            _ => None,
        }
    }

    /// The entries of an object.
    pub fn as_object(&self) -> (r: Option<&Vec<Member>>)
        ensures
            match r {
                Some(m) => self@.object_members() == Some(members_view(m@)),
                None => self@.object_members() is None,
            },
    {
        match self {
            Json::Object(m) => Some(m),
            _ => None,
        }
    }
}

impl Clone for Member {
    fn clone(&self) -> (r: Self)
        ensures
            r@ == self@,
        decreases self,
    {
        Member { key: self.key.clone(), value: self.value.clone() }
    }
}

impl Clone for Json {
    #[verifier::loop_isolation(false)]
    fn clone(&self) -> (r: Self)
        ensures
            r@ == self@,
        decreases self,
    {
        match self {
            Json::Null => Json::Null,
            Json::Bool(b) => Json::Bool(*b),
            Json::Number(n) => Json::Number(*n),
            Json::Str(s) => Json::Str(s.clone()),
            Json::Array(a) => {
                let mut items: Vec<Json> = Vec::new();
                let mut i: usize = 0;
                proof {
                    lemma_items_view(a@);
                }
                while i < a.len()
                    invariant
                        0 <= i <= a.len(),
                        items.len() == i,
                        forall|k: int| 0 <= k < i ==> #[trigger] items@[k]@ == a@[k]@,
                    decreases a.len() - i,
                {
                    items.push(a[i].clone());
                    i = i + 1;
                }
                proof {
                    lemma_items_view(items@);
                    assert forall|k: int| 0 <= k < a.len() implies items_view(items@)[k]
                        == items_view(a@)[k] by {
                        assert(items@[k]@ == a@[k]@);
                    }
                    assert(items_view(items@) =~= items_view(a@));
                }
                Json::Array(items)
            },
            Json::Object(m) => {
                let mut members: Vec<Member> = Vec::new();
                let mut i: usize = 0;
                proof {
                    lemma_members_view(m@);
                }
                while i < m.len()
                    invariant
                        0 <= i <= m.len(),
                        members.len() == i,
                        forall|k: int| 0 <= k < i ==> #[trigger] members@[k]@ == m@[k]@,
                    decreases m.len() - i,
                {
                    members.push(m[i].clone());
                    i = i + 1;
                }
                proof {
                    lemma_members_view(members@);
                    assert forall|k: int| 0 <= k < m.len() implies members_view(members@)[k]
                        == members_view(m@)[k] by {
                        assert(members@[k]@ == m@[k]@);
                    }
                    assert(members_view(members@) =~= members_view(m@));
                }
                Json::Object(members)
            },
        }
    }
}

/// The value type of `serde_json`, opaque here: it only travels from the
/// parser to the conversion below.
#[verifier::external_type_specification]
#[verifier::external_body]
pub struct ExValue(serde_json::Value);

/// The value that `serde_json::from_str` reads from a text, in the form of
/// this module, or `None` where the parser refuses the text: it is not
/// JSON, it nests deeper than the parser goes, or it holds a number the
/// parser cannot represent. The parser is deterministic, so this is a
/// function of the text; its grammar is not restated here.
pub uninterp spec fn json_text_value(text: Seq<char>) -> Option<JsonView>;

/// Converts a numeric value of `serde_json` by `Value::as_u64`,
/// `Value::as_i64` and `Value::as_f64`, which tell the three representations
/// of a number apart. Nothing is claimed of the result.
#[verifier::external_body]
fn number_of(v: &serde_json::Value) -> Number {
    match (v.as_u64(), v.as_i64()) {
        (Some(u), _) => Number::PosInt(u),
        (_, Some(i)) => Number::NegInt(i),
        _ => Number::Float(v.as_f64().map_or(0, |f| f.to_bits())),
    }
}

/// Converts a value of `serde_json` variant by variant, an object entry by
/// entry in the order `serde_json::Map::iter` walks them. Nothing is claimed
/// of the result.
#[verifier::external_body]
fn json_of(v: &serde_json::Value) -> Json {
    match v {
        serde_json::Value::Null => Json::Null,
        serde_json::Value::Bool(b) => Json::Bool(*b),
        serde_json::Value::Number(_) => Json::Number(number_of(v)),
        serde_json::Value::String(s) => Json::Str(s.clone()),
        serde_json::Value::Array(a) => Json::Array(a.iter().map(json_of).collect()),
        serde_json::Value::Object(m) => Json::Object(
            m.iter().map(|(k, x)| Member { key: k.clone(), value: json_of(x) }).collect(),
        ),
    }
}

/// Calls `serde_json::from_str` for a `serde_json::Value` and converts what
/// it returns. The contract only gives the result its name: the same text
/// always parses to the same value, and a text that the parser refuses
/// gives `None`.
#[verifier::external_body]
pub(crate) fn parse_json(text: &str) -> (r: Option<Json>)
    ensures
        match r {
            Some(j) => json_text_value(text@) == Some(j@),
            None => json_text_value(text@) is None,
        },
{
    match serde_json::from_str::<serde_json::Value>(text) {
        Ok(v) => Some(json_of(&v)),
        Err(_) => None,
    }
}

} // verus!
