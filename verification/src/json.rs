//! JSON values as the daemon reads them.
//!
//! Of a number only its integer readings are kept: nothing in the daemon's rules looks at a
//! fraction.
use crate::text::same_text;
use vstd::prelude::*;

verus! {

/// The integer readings of a JSON number.
#[derive(Clone, Copy, Debug, PartialEq, Eq, Structural)]
pub struct JsonNumber {
    /// The value as an `i64`, where it is one.
    pub signed: Option<i64>,
    /// The value as a `u64`, where it is one.
    pub unsigned: Option<u64>,
}

/// A JSON value.
#[derive(Debug)]
pub enum Json {
    Null,
    Bool(bool),
    Number(JsonNumber),
    Text(String),
    Array(Vec<Json>),
    Object(Vec<JsonMember>),
}

/// One member of a JSON object.
#[derive(Debug)]
pub struct JsonMember {
    pub key: String,
    pub value: Json,
}

/// What a JSON value is: the model of [`Json`].
pub enum JsonView {
    Null,
    Bool(bool),
    Number(JsonNumber),
    Text(Seq<char>),
    Array(Seq<JsonView>),
    Object(Seq<(Seq<char>, JsonView)>),
}

impl View for Json {
    type V = JsonView;

    open spec fn view(&self) -> JsonView {
        json_view(*self)
    }
}

/// The model of a value.
pub open spec fn json_view(j: Json) -> JsonView
    decreases j,
{
    match j {
        Json::Null => JsonView::Null,
        Json::Bool(b) => JsonView::Bool(b),
        Json::Number(n) => JsonView::Number(n),
        Json::Text(s) => JsonView::Text(s@),
        Json::Array(items) => JsonView::Array(
            Seq::new(
                items@.len(),
                |i: int|
                    if 0 <= i < items@.len() {
                        json_view(items@[i])
                    } else {
                        JsonView::Null
                    },
            ),
        ),
        Json::Object(members) => JsonView::Object(
            Seq::new(
                members@.len(),
                |i: int|
                    if 0 <= i < members@.len() {
                        (members@[i].key@, json_view(members@[i].value))
                    } else {
                        (Seq::<char>::empty(), JsonView::Null)
                    },
            ),
        ),
    }
}

/// The models of the members of an object.
pub open spec fn member_views(members: Seq<JsonMember>) -> Seq<(Seq<char>, JsonView)> {
    members.map_values(|m: JsonMember| (m.key@, m.value@))
}

/// The models of the items of an array.
pub open spec fn item_views(items: Seq<Json>) -> Seq<JsonView> {
    items.map_values(|j: Json| j@)
}

/// The model of an unsigned integer.
pub open spec fn count_view(n: u64) -> JsonView {
    JsonView::Number(
        JsonNumber {
            signed: if n <= i64::MAX {
                Some(n as i64)
            } else {
                None
            },
            unsigned: Some(n),
        },
    )
}

/// The model of a signed integer.
pub open spec fn id_view(id: i64) -> JsonView {
    JsonView::Number(
        JsonNumber {
            signed: Some(id),
            unsigned: if id >= 0 {
                Some(id as u64)
            } else {
                None
            },
        },
    )
}

/// The value of the first of the members from position `i` on that has the key.
pub open spec fn member_from(
    members: Seq<(Seq<char>, JsonView)>,
    key: Seq<char>,
    i: int,
) -> Option<JsonView>
    decreases members.len() - i,
{
    if i < 0 || i >= members.len() {
        None
    } else if members[i].0 == key {
        Some(members[i].1)
    } else {
        member_from(members, key, i + 1)
    }
}

impl JsonView {
    /// The member `key` of an object.
    pub open spec fn get(self, key: Seq<char>) -> Option<JsonView> {
        match self {
            JsonView::Object(members) => member_from(members, key, 0),
            _ => None,
        }
    }

    /// The member `key` where it is a string.
    pub open spec fn text(self, key: Seq<char>) -> Option<Seq<char>> {
        match self.get(key) {
            Some(JsonView::Text(s)) => Some(s),
            _ => None,
        }
    }

    /// The member `key` where it is a string, `default` otherwise.
    pub open spec fn text_or(self, key: Seq<char>, default: Seq<char>) -> Seq<char> {
        match self.text(key) {
            Some(s) => s,
            None => default,
        }
    }

    /// The member `key` where it is a number that fits a `u64`.
    pub open spec fn unsigned(self, key: Seq<char>) -> Option<u64> {
        match self.get(key) {
            Some(JsonView::Number(n)) => n.unsigned,
            _ => None,
        }
    }

    /// The member `key` where it is a number that fits an `i64`.
    pub open spec fn signed(self, key: Seq<char>) -> Option<i64> {
        match self.get(key) {
            Some(JsonView::Number(n)) => n.signed,
            _ => None,
        }
    }

    /// The member `key` where it is `true` or `false`.
    pub open spec fn flag(self, key: Seq<char>) -> Option<bool> {
        match self.get(key) {
            Some(JsonView::Bool(b)) => Some(b),
            _ => None,
        }
    }

    /// The items of an array.
    pub open spec fn items(self) -> Option<Seq<JsonView>> {
        match self {
            JsonView::Array(items) => Some(items),
            _ => None,
        }
    }
}

impl Json {
    /// The member `key` of an object.
    pub fn get(&self, key: &str) -> (res: Option<&Json>)
        ensures
            match res {
                Some(v) => self@.get(key@) == Some(v@),
                None => self@.get(key@) is None,
            },
    {
        match self {
            Json::Object(members) => {
                let mut i: usize = 0;
                let ghost model = self@->Object_0;
                while i < members.len()
                    invariant
                        i <= members@.len(),
                        *self == Json::Object(*members),
                        self@ == JsonView::Object(model),
                        model.len() == members@.len(),
                        forall|k: int|
                            0 <= k < members@.len() ==> #[trigger] model[k] == (
                                members@[k].key@,
                                json_view(members@[k].value),
                            ),
                        member_from(model, key@, 0) == member_from(model, key@, i as int),
                    decreases members@.len() - i,
                {
                    assert(model[i as int].0 == members@[i as int].key@);
                    if same_text(members[i].key.as_str(), key) {
                        return Some(&members[i].value);
                    }
                    i = i + 1;
                }
                None
            },
            _ => None,
        }
    }

    /// The member `key` where it is a string.
    pub fn text(&self, key: &str) -> (res: Option<&str>)
        ensures
            match res {
                Some(s) => self@.text(key@) == Some(s@),
                None => self@.text(key@) is None,
            },
    {
        match self.get(key) {
            Some(Json::Text(s)) => Some(s.as_str()),
            _ => None,
        }
    }

    /// The member `key` where it is a string, `default` otherwise.
    pub fn text_or(&self, key: &str, default: &str) -> (res: String)
        ensures
            res@ == self@.text_or(key@, default@),
    {
        match self.text(key) {
            Some(s) => s.to_owned(),
            None => default.to_owned(),
        }
    }

    /// The member `key` where it is a number that fits a `u64`.
    pub fn unsigned(&self, key: &str) -> (res: Option<u64>)
        ensures
            res == self@.unsigned(key@),
    {
        match self.get(key) {
            Some(Json::Number(n)) => n.unsigned,
            _ => None,
        }
    }

    /// The member `key` where it is a number that fits an `i64`.
    pub fn signed(&self, key: &str) -> (res: Option<i64>)
        ensures
            res == self@.signed(key@),
    {
        match self.get(key) {
            Some(Json::Number(n)) => n.signed,
            _ => None,
        }
    }

    /// The member `key` where it is `true` or `false`.
    pub fn flag(&self, key: &str) -> (res: Option<bool>)
        ensures
            res == self@.flag(key@),
    {
        match self.get(key) {
            Some(Json::Bool(b)) => Some(*b),
            _ => None,
        }
    }

    /// The items of an array.
    pub fn items(&self) -> (res: Option<&Vec<Json>>)
        ensures
            match res {
                Some(v) => self@.items() == Some(item_views(v@)),
                None => self@.items() is None,
            },
    {
        match self {
            Json::Array(items) => {
                assert(self@->Array_0 =~= item_views(items@));
                Some(items)
            },
            _ => None,
        }
    }

    /// An object with the members given, in their order.
    pub fn object(members: Vec<JsonMember>) -> (res: Json)
        ensures
            res@ == JsonView::Object(member_views(members@)),
    {
        let res = Json::Object(members);
        assert(res@->Object_0 =~= member_views(members@));
        res
    }

    /// An array with the items given.
    pub fn array(items: Vec<Json>) -> (res: Json)
        ensures
            res@ == JsonView::Array(item_views(items@)),
    {
        let res = Json::Array(items);
        assert(res@->Array_0 =~= item_views(items@));
        res
    }

    /// A string.
    pub fn string(s: &str) -> (res: Json)
        ensures
            res@ == JsonView::Text(s@),
    {
        Json::Text(s.to_owned())
    }

    /// An unsigned integer.
    pub fn count(n: u64) -> (res: Json)
        ensures
            res@ == count_view(n),
    {
        let signed = if n <= i64::MAX as u64 {
            Some(n as i64)
        } else {
            None
        };
        Json::Number(JsonNumber { signed, unsigned: Some(n) })
    }

    /// A signed integer.
    pub fn id(n: i64) -> (res: Json)
        ensures
            res@ == id_view(n),
    {
        let unsigned = if n >= 0 {
            Some(n as u64)
        } else {
            None
        };
        Json::Number(JsonNumber { signed: Some(n), unsigned })
    }

    /// A value equal to this one.
    pub fn duplicate(&self) -> (res: Json)
        ensures
            res@ == self@,
        decreases self,
    {
        match self {
            Json::Null => Json::Null,
            Json::Bool(b) => Json::Bool(*b),
            Json::Number(n) => Json::Number(*n),
            Json::Text(s) => Json::Text(s.as_str().to_owned()),
            Json::Array(items) => {
                let mut out: Vec<Json> = Vec::new();
                let mut i: usize = 0;
                while i < items.len()
                    invariant
                        i <= items@.len(),
                        *self == Json::Array(*items),
                        out@.len() == i,
                        forall|k: int| 0 <= k < i ==> (#[trigger] out@[k])@ == items@[k]@,
                    decreases items@.len() - i,
                {
                    assert(decreases_to!(*self => self->Array_0));
                    assert(decreases_to!(self->Array_0 => self->Array_0[i as int]));
                    out.push(items[i].duplicate());
                    i = i + 1;
                }
                let res = Json::Array(out);
                assert(res@->Array_0 =~= self@->Array_0);
                res
            },
            Json::Object(members) => {
                let mut out: Vec<JsonMember> = Vec::new();
                let mut i: usize = 0;
                while i < members.len()
                    invariant
                        i <= members@.len(),
                        *self == Json::Object(*members),
                        out@.len() == i,
                        forall|k: int|
                            0 <= k < i ==> (#[trigger] out@[k]).key@ == members@[k].key@
                                && out@[k].value@ == members@[k].value@,
                    decreases members@.len() - i,
                {
                    assert(decreases_to!(*self => self->Object_0));
                    assert(decreases_to!(self->Object_0 => self->Object_0[i as int]));
                    assert(decreases_to!(self->Object_0[i as int] => self->Object_0[i as int].value));
                    let key = members[i].key.as_str().to_owned();
                    out.push(JsonMember { key, value: members[i].value.duplicate() });
                    i = i + 1;
                }
                let res = Json::Object(out);
                assert(res@->Object_0 =~= self@->Object_0);
                res
            },
        }
    }

    /// The value that the bytes of a JSON text denote, where they denote one.
    pub fn parse_bytes(data: &Vec<u8>) -> (res: Option<Json>)
        ensures
            match res {
                Some(j) => json_of_bytes(data@) == Some(j@),
                None => json_of_bytes(data@) is None,
            },
    {
        match read_slice(data.as_slice()) {
            Some(v) => Some(from_value(v)),
            None => None,
        }
    }

    /// The value that a JSON text denotes, or the reader's complaint about it.
    pub fn parse(text: &str) -> (res: Result<Json, String>)
        ensures
            match res {
                Ok(j) => json_of_text(text@) == Ok::<JsonView, Seq<char>>(j@),
                Err(e) => json_of_text(text@) == Err::<JsonView, Seq<char>>(e@),
            },
    {
        match read_value(text) {
            Ok(v) => Ok(from_value(v)),
            Err(e) => Err(e),
        }
    }
}

/// A member of an object.
pub fn member(key: &str, value: Json) -> (res: JsonMember)
    ensures
        res.key@ == key@,
        res.value@ == value@,
{
    JsonMember { key: key.to_owned(), value }
}

/// A JSON value of the `serde_json` crate.
#[verifier::external_type_specification]
#[verifier::external_body]
pub struct ExValue(serde_json::Value);

/// What a value of the `serde_json` crate holds.
pub uninterp spec fn json_model(value: serde_json::Value) -> JsonView;

/// What `serde_json::from_str` reads from a text: the value, or its complaint in words.
pub uninterp spec fn json_of_text(text: Seq<char>) -> Result<JsonView, Seq<char>>;

/// `serde_json::from_str` into a `serde_json::Value`: the text alone decides what comes back, the
/// value that it denotes or the complaint about it.
#[verifier::external_body]
fn read_value(text: &str) -> (res: Result<serde_json::Value, String>)
    ensures
        match res {
            Ok(v) => json_of_text(text@) == Ok::<JsonView, Seq<char>>(json_model(v)),
            Err(e) => json_of_text(text@) == Err::<JsonView, Seq<char>>(e@),
        },
{
    serde_json::from_str::<serde_json::Value>(text).map_err(|e| e.to_string())
}

/// What `serde_json::from_slice` reads from bytes: the value, where they denote one.
pub uninterp spec fn json_of_bytes(data: Seq<u8>) -> Option<JsonView>;

/// `serde_json::from_slice` into a `serde_json::Value`: the bytes alone decide whether a value comes
/// back, and which.
#[verifier::external_body]
fn read_slice(data: &[u8]) -> (res: Option<serde_json::Value>)
    ensures
        match res {
            Some(v) => json_of_bytes(data@) == Some(json_model(v)),
            None => json_of_bytes(data@) is None,
        },
{
    serde_json::from_slice::<serde_json::Value>(data).ok()
}

/// The same value, variant by variant, with the readings `serde_json::Number::as_i64` and
/// `serde_json::Number::as_u64` of each number.
#[verifier::external_body]
fn from_value(value: serde_json::Value) -> (res: Json)
    ensures
        res@ == json_model(value),
{
    match value {
        serde_json::Value::Null => Json::Null,
        serde_json::Value::Bool(b) => Json::Bool(b),
        serde_json::Value::Number(n) => Json::Number(JsonNumber { signed: n.as_i64(), unsigned: n.as_u64() }),
        serde_json::Value::String(s) => Json::Text(s),
        serde_json::Value::Array(items) => Json::Array(items.into_iter().map(from_value).collect()),
        serde_json::Value::Object(members) => Json::Object(
            members.into_iter().map(|(key, value)| JsonMember { key, value: from_value(value) }).collect(),
        ),
    }
}

// ----- what is written can be read -----

/// The member at a position is the one that its key gives, where no member before it has that key.
pub proof fn lemma_member_at(members: Seq<(Seq<char>, JsonView)>, i: int, k: int)
    requires
        0 <= i <= k < members.len(),
        forall|j: int| i <= j < k ==> #[trigger] members[j].0 != members[k].0,
    ensures
        member_from(members, members[k].0, i) == Some(members[k].1),
    decreases k - i,
{
    if i < k {
        assert(members[i].0 != members[k].0);
        lemma_member_at(members, i + 1, k);
    }
}

/// What is found from a position on is a member with the key, and the first such one.
proof fn lemma_member_from(members: Seq<(Seq<char>, JsonView)>, key: Seq<char>, i: int)
    requires
        0 <= i <= members.len(),
    ensures
        match member_from(members, key, i) {
            Some(v) => exists|k: int|
                #![trigger members[k]]
                i <= k < members.len() && members[k] == (key, v) && forall|j: int|
                    i <= j < k ==> (#[trigger] members[j]).0 != key,
            None => forall|j: int| i <= j < members.len() ==> (#[trigger] members[j]).0 != key,
        },
    decreases members.len() - i,
{
    if i < members.len() {
        if members[i].0 == key {
            assert(members[i] == (key, members[i].1));
        } else {
            lemma_member_from(members, key, i + 1);
        }
    }
}

/// An object gives under a key the value of its first member of that name, and nothing where it has
/// no such member. No other value has members.
pub proof fn law_object_gives_its_members(value: JsonView, key: Seq<char>)
    ensures
        match value {
            JsonView::Object(members) => match value.get(key) {
                Some(v) => exists|k: int|
                    #![trigger members[k]]
                    0 <= k < members.len() && members[k] == (key, v) && forall|j: int|
                        0 <= j < k ==> (#[trigger] members[j]).0 != key,
                None => forall|j: int| 0 <= j < members.len() ==> (#[trigger] members[j]).0 != key,
            },
            _ => value.get(key) is None,
        },
{
    if let JsonView::Object(members) = value {
        lemma_member_from(members, key, 0);
    }
}

/// A member is read as what it is and as nothing else: a text as a text, a number as a number, `true`
/// and `false` as such. A default stands in exactly where there is no text.
pub proof fn law_members_are_read_by_type(value: JsonView, key: Seq<char>, default: Seq<char>)
    ensures
        value.get(key) matches Some(JsonView::Text(s)) ==> {
            &&& value.text(key) == Some(s)
            &&& value.text_or(key, default) == s
            &&& value.unsigned(key) is None
            &&& value.signed(key) is None
            &&& value.flag(key) is None
        },
        value.get(key) matches Some(JsonView::Number(n)) ==> {
            &&& value.unsigned(key) == n.unsigned
            &&& value.signed(key) == n.signed
            &&& value.text(key) is None
            &&& value.text_or(key, default) == default
            &&& value.flag(key) is None
        },
        value.get(key) matches Some(JsonView::Bool(b)) ==> {
            &&& value.flag(key) == Some(b)
            &&& value.text_or(key, default) == default
            &&& value.unsigned(key) is None
            &&& value.signed(key) is None
        },
        value.get(key) is None ==> {
            &&& value.text(key) is None
            &&& value.text_or(key, default) == default
            &&& value.unsigned(key) is None
            &&& value.signed(key) is None
            &&& value.flag(key) is None
        },
        value matches JsonView::Array(items) ==> value.items() == Some(items),
        !(value is Array) ==> value.items() is None,
{
}

/// A number that is written is read back: an unsigned one as itself, also where a signed one is asked
/// for and it fits, and a signed one likewise.
pub proof fn law_numbers_read_back(n: u64, id: i64)
    ensures
        count_view(n) matches JsonView::Number(x) && x.unsigned == Some(n) && (n <= i64::MAX
            ==> (x.signed matches Some(v) && v == n)) && (n > i64::MAX ==> x.signed is None),
        id_view(id) matches JsonView::Number(x) && x.signed == Some(id) && (id >= 0
            ==> (x.unsigned matches Some(v) && v == id)) && (id < 0 ==> x.unsigned is None),
{
}

} // verus!
