//! JSON documents: what they hold, and the few reads and writes made on them.
//!
//! Parsing and printing are `serde_json`'s. [`Json`] holds a parsed document as
//! plain values, which is what all decisions read.
use vstd::prelude::*;

use crate::text::str_eq;

verus! {

/// A JSON document.
pub enum Json {
    Null,
    Bool(bool),
    /// A number: its value where it is a whole number from zero up that fits,
    /// and its text.
    Number { unsigned: Option<u64>, text: String },
    Text(String),
    Array(Vec<Json>),
    /// The members; of two with the same name the later one counts.
    Object(Vec<(String, Json)>),
}

/// What a JSON document holds.
pub enum JsonView {
    Null,
    Bool(bool),
    Number { unsigned: Option<u64>, text: Seq<char> },
    Text(Seq<char>),
    Array(Seq<JsonView>),
    Object(Map<Seq<char>, JsonView>),
}

/// What the items of an array hold.
pub open spec fn items_view(items: Seq<Json>) -> Seq<JsonView>
    decreases items,
{
    if items.len() == 0 {
        Seq::empty()
    } else {
        items_view(items.drop_last()).push(items.last().view())
    }
}

/// What the members of an object hold.
pub open spec fn members_view(members: Seq<(String, Json)>) -> Map<Seq<char>, JsonView>
    decreases members,
{
    if members.len() == 0 {
        Map::empty()
    } else {
        members_view(members.drop_last()).insert(members.last().0@, members.last().1.view())
    }
}

impl Json {
    pub open spec fn view(&self) -> JsonView
        decreases self,
    {
        match self {
            Json::Null => JsonView::Null,
            Json::Bool(b) => JsonView::Bool(*b),
            Json::Number { unsigned, text } => JsonView::Number {
                unsigned: *unsigned,
                text: text@,
            },
            Json::Text(s) => JsonView::Text(s@),
            Json::Array(items) => JsonView::Array(items_view(items@)),
            Json::Object(members) => JsonView::Object(members_view(members@)),
        }
    }
}

// ---------------------------------------------------------------------------
// Reading
// ---------------------------------------------------------------------------
/// The member of an object with a name; nothing for anything but an object.
pub open spec fn member(v: JsonView, name: Seq<char>) -> Option<JsonView> {
    match v {
        JsonView::Object(m) => if m.contains_key(name) {
            Some(m[name])
        } else {
            None
        },
        _ => None,
    }
}

/// The member with a name of what may be there.
pub open spec fn member_of(v: Option<JsonView>, name: Seq<char>) -> Option<JsonView> {
    match v {
        Some(x) => member(x, name),
        None => None,
    }
}

/// The text that a document is, if it is one.
pub open spec fn as_text(v: Option<JsonView>) -> Option<Seq<char>> {
    match v {
        Some(JsonView::Text(s)) => Some(s),
        _ => None,
    }
}

/// The whole number from zero up that a document is, if it is one that fits.
pub open spec fn as_unsigned(v: Option<JsonView>) -> Option<u64> {
    match v {
        Some(JsonView::Number { unsigned, .. }) => unsigned,
        _ => None,
    }
}

/// The truth value that a document is, if it is one.
pub open spec fn as_flag(v: Option<JsonView>) -> Option<bool> {
    match v {
        Some(JsonView::Bool(b)) => Some(b),
        _ => None,
    }
}

/// The items of the array that a document is, if it is one.
pub open spec fn as_items(v: Option<JsonView>) -> Option<Seq<JsonView>> {
    match v {
        Some(JsonView::Array(items)) => Some(items),
        _ => None,
    }
}

/// Item by item, the view of an array is the views of its items.
pub proof fn items_view_at(items: Seq<Json>, i: int)
    requires
        0 <= i < items.len(),
    ensures
        items_view(items).len() == items.len(),
        items_view(items)[i] == items[i].view(),
    decreases items.len(),
{
    items_view_len(items.drop_last());
    if i < items.len() - 1 {
        items_view_at(items.drop_last(), i);
    }
}

/// The view of an array is as long as the array.
pub proof fn items_view_len(items: Seq<Json>)
    ensures
        items_view(items).len() == items.len(),
    decreases items.len(),
{
    if items.len() > 0 {
        items_view_len(items.drop_last());
    }
}

/// What may be there, seen as what it holds.
pub open spec fn opt_view(v: Option<&Json>) -> Option<JsonView> {
    match v {
        Some(x) => Some(x.view()),
        None => None,
    }
}

impl Json {
    /// The member with a name.
    pub fn get(&self, name: &str) -> (r: Option<&Json>)
        ensures
            opt_view(r) == member(self.view(), name@),
    {
        match self {
            Json::Object(members) => {
                let mut i: usize = members.len();
                assert(members@.take(i as int) =~= members@);
                while i > 0
                    invariant
                        i <= members@.len(),
                        *self == Json::Object(*members),
                        members_view(members@).contains_key(name@) == members_view(
                            members@.take(i as int),
                        ).contains_key(name@),
                        members_view(members@).contains_key(name@) ==> members_view(members@)[name@]
                            == members_view(members@.take(i as int))[name@],
                    decreases i,
                {
                    assert(members@.take(i as int).drop_last() =~= members@.take(i - 1));
                    i -= 1;
                    if str_eq(members[i].0.as_str(), name) {
                        return Some(&members[i].1);
                    }
                }
                None
            },
            _ => None,
        }
    }

    /// The text, if it is one.
    pub fn as_str(&self) -> (r: Option<&str>)
        ensures
            match r {
                Some(s) => self.view() == JsonView::Text(s@),
                None => !(self.view() is Text),
            },
    {
        match self {
            Json::Text(s) => Some(s.as_str()),
            _ => None,
        }
    }

    /// The whole number from zero up, if it is one that fits.
    pub fn as_u64(&self) -> (r: Option<u64>)
        ensures
            r == as_unsigned(Some(self.view())),
    {
        match self {
            Json::Number { unsigned, .. } => *unsigned,
            _ => None,
        }
    }

    /// The truth value, if it is one.
    pub fn as_bool(&self) -> (r: Option<bool>)
        ensures
            r == as_flag(Some(self.view())),
    {
        match self {
            Json::Bool(b) => Some(*b),
            _ => None,
        }
    }

    /// The items, if it is an array.
    pub fn as_array(&self) -> (r: Option<&Vec<Json>>)
        ensures
            match r {
                Some(items) => self.view() == JsonView::Array(items_view(items@)),
                None => !(self.view() is Array),
            },
    {
        match self {
            Json::Array(items) => Some(items),
            _ => None,
        }
    }

    /// Whether it is an object.
    pub fn is_object(&self) -> (r: bool)
        ensures
            r == (self.view() is Object),
    {
        match self {
            Json::Object(_) => true,
            _ => false,
        }
    }

    /// Whether it is null.
    pub fn is_null(&self) -> (r: bool)
        ensures
            r == (self.view() == JsonView::Null),
    {
        match self {
            Json::Null => true,
            _ => false,
        }
    }
}

/// The number at a member of a document that may be there.
pub fn unsigned_at(v: Option<&Json>, name: &str) -> (r: Option<u64>)
    ensures
        r == as_unsigned(member_of(opt_view(v), name@)),
{
    match v {
        Some(x) => match x.get(name) {
            Some(y) => y.as_u64(),
            None => None,
        },
        None => None,
    }
}

/// The member of a document that may be there.
pub fn get_in<'a>(v: Option<&'a Json>, name: &str) -> (r: Option<&'a Json>)
    ensures
        opt_view(r) == member_of(opt_view(v), name@),
{
    match v {
        Some(x) => x.get(name),
        None => None,
    }
}

/// The text of a document that may be there.
pub fn text_of<'a>(v: Option<&'a Json>) -> (r: Option<&'a str>)
    ensures
        match r {
            Some(s) => as_text(opt_view(v)) == Some(s@),
            None => as_text(opt_view(v)) is None,
        },
{
    match v {
        Some(x) => x.as_str(),
        None => None,
    }
}

/// The items of a document that may be there.
pub fn items_of<'a>(v: Option<&'a Json>) -> (r: Option<&'a Vec<Json>>)
    ensures
        match r {
            Some(items) => as_items(opt_view(v)) == Some(items_view(items@)),
            None => as_items(opt_view(v)) is None,
        },
{
    match v {
        Some(x) => x.as_array(),
        None => None,
    }
}

// ---------------------------------------------------------------------------
// serde_json
// ---------------------------------------------------------------------------
/// `serde_json::Value`, a parsed document.
#[verifier::external_type_specification]
#[verifier::external_body]
pub struct ExValue(serde_json::Value);

/// What a `serde_json::Value` holds.
pub uninterp spec fn value_content(v: serde_json::Value) -> JsonView;

/// The document that `serde_json::from_slice` reads from bytes, or what its
/// error says where it reads none.
pub uninterp spec fn json_of(bytes: Seq<u8>) -> Result<JsonView, Seq<char>>;

/// The document that bytes hold, if they hold one.
pub open spec fn json_in(bytes: Seq<u8>) -> Option<JsonView> {
    match json_of(bytes) {
        Ok(v) => Some(v),
        Err(_) => None,
    }
}

/// The text that `serde_json::Value` prints for a document.
pub uninterp spec fn json_text(v: JsonView) -> Seq<char>;

/// Calls `serde_json::from_slice`, which reads a whole document from bytes or
/// fails with an error that prints as a text. Both depend on the bytes alone.
#[verifier::external_body]
fn read_value(bytes: &[u8]) -> (r: Result<serde_json::Value, String>)
    ensures
        match r {
            Ok(v) => json_of(bytes@) == Ok::<JsonView, Seq<char>>(value_content(v)),
            Err(e) => json_of(bytes@) == Err::<JsonView, Seq<char>>(e@),
        },
{
    serde_json::from_slice(bytes).map_err(|e| e.to_string())
}

/// The outermost layer of a `serde_json::Value`.
enum Layer<'a> {
    Null,
    Bool(bool),
    Number { unsigned: Option<u64>, text: String },
    Text(&'a String),
    Array(&'a Vec<serde_json::Value>),
    Object(Vec<(&'a String, &'a serde_json::Value)>),
}

/// What the members of a layer hold, up to `n`.
spec fn layer_members(members: Seq<(&String, &serde_json::Value)>, n: int) -> Map<
    Seq<char>,
    JsonView,
>
    decreases n,
{
    if n <= 0 {
        Map::empty()
    } else {
        layer_members(members, n - 1).insert(members[n - 1].0@, value_content(*members[n - 1].1))
    }
}

/// Takes the outermost layer off a `serde_json::Value`, variant by variant: of
/// a number what `Number::as_u64` gives and what it prints, of an array the
/// items, of an object (a `serde_json::Map`, which holds no name twice) the
/// members.
#[verifier::external_body]
fn layer_of(v: &serde_json::Value) -> (r: Layer<'_>)
    ensures
        match r {
            Layer::Null => value_content(*v) == JsonView::Null,
            Layer::Bool(b) => value_content(*v) == JsonView::Bool(b),
            Layer::Number { unsigned, text } => value_content(*v) == (JsonView::Number {
                unsigned,
                text: text@,
            }),
            Layer::Text(s) => value_content(*v) == JsonView::Text(s@),
            Layer::Array(items) => value_content(*v) == JsonView::Array(
                Seq::new(items@.len(), |i: int| value_content(items@[i])),
            ),
            Layer::Object(members) => {
                &&& value_content(*v) == JsonView::Object(
                    layer_members(members@, members@.len() as int),
                )
                &&& forall|i: int, j: int|
                    0 <= i < j < members@.len() ==> #[trigger] members@[i].0@
                        != #[trigger] members@[j].0@
            },
        },
{
    match v {
        serde_json::Value::Null => Layer::Null,
        serde_json::Value::Bool(b) => Layer::Bool(*b),
        serde_json::Value::Number(n) => Layer::Number { unsigned: n.as_u64(), text: n.to_string() },
        serde_json::Value::String(s) => Layer::Text(s),
        serde_json::Value::Array(items) => Layer::Array(items),
        serde_json::Value::Object(members) => Layer::Object(members.iter().collect()),
    }
}

/// Each member of a layer without repeated names is found under its name.
proof fn layer_member_at(members: Seq<(&String, &serde_json::Value)>, n: int, i: int)
    requires
        0 <= i < n <= members.len(),
        forall|i: int, j: int|
            0 <= i < j < members.len() ==> #[trigger] members[i].0@ != #[trigger] members[j].0@,
    ensures
        layer_members(members, n).contains_key(members[i].0@),
        layer_members(members, n)[members[i].0@] == value_content(*members[i].1),
    decreases n,
{
    if i < n - 1 {
        layer_member_at(members, n - 1, i);
        assert(members[i].0@ != members[n - 1].0@);
    }
}

proof fn layer_is_finite(members: Seq<(&String, &serde_json::Value)>, n: int)
    ensures
        layer_members(members, n).dom().finite(),
    decreases n,
{
    if n > 0 {
        layer_is_finite(members, n - 1);
    }
}

/// Turns a `serde_json::Value` into plain values.
fn from_value(v: &serde_json::Value) -> (r: Json)
    ensures
        r.view() == value_content(*v),
    decreases value_content(*v),
{
    match layer_of(v) {
        Layer::Null => Json::Null,
        Layer::Bool(b) => Json::Bool(b),
        Layer::Number { unsigned, text } => Json::Number { unsigned, text },
        Layer::Text(s) => Json::Text(s.clone()),
        Layer::Array(items) => {
            let ghost all = Seq::new(items@.len(), |i: int| value_content(items@[i]));
            let mut out: Vec<Json> = Vec::new();
            let mut i: usize = 0;
            assert(all.take(0) =~= Seq::empty());
            while i < items.len()
                invariant
                    i <= items@.len(),
                    value_content(*v) == JsonView::Array(all),
                    all == Seq::new(items@.len(), |i: int| value_content(items@[i])),
                    out@.len() == i,
                    items_view(out@) == all.take(i as int),
                decreases items.len() - i,
            {
                assert(decreases_to!(value_content(*v) => value_content(*v)->Array_0));
                assert(all[i as int] == value_content(items@[i as int]));
                assert(decreases_to!(all => all[i as int]));
                let ghost before = out@;
                out.push(from_value(&items[i]));
                assert(out@.drop_last() =~= before);
                assert(all.take(i + 1) =~= all.take(i as int).push(all[i as int]));
                i += 1;
            }
            assert(all.take(i as int) =~= all);
            Json::Array(out)
        },
        Layer::Object(members) => {
            let ghost all = layer_members(members@, members@.len() as int);
            let mut out: Vec<(String, Json)> = Vec::new();
            let mut i: usize = 0;
            while i < members.len()
                invariant
                    i <= members@.len(),
                    value_content(*v) == JsonView::Object(all),
                    all == layer_members(members@, members@.len() as int),
                    forall|i: int, j: int|
                        0 <= i < j < members@.len() ==> #[trigger] members@[i].0@
                            != #[trigger] members@[j].0@,
                    out@.len() == i,
                    members_view(out@) == layer_members(members@, i as int),
                decreases members.len() - i,
            {
                proof {
                    layer_member_at(members@, members@.len() as int, i as int);
                    layer_is_finite(members@, members@.len() as int);
                    assert(decreases_to!(value_content(*v) => value_content(*v)->Object_0));
                    assert(decreases_to!(all => all[members@[i as int].0@]));
                }
                let ghost before = out@;
                let (name, x) = members[i];
                out.push((name.clone(), from_value(x)));
                assert(out@.drop_last() =~= before);
                i += 1;
            }
            Json::Object(out)
        },
    }
}

/// Calls `Value::get` with a name: the member of an object with that name, and
/// nothing where the value is no object or has no such member.
#[verifier::external_body]
fn value_member<'a>(v: &'a serde_json::Value, name: &str) -> (r: Option<&'a serde_json::Value>)
    ensures
        match r {
            Some(x) => member(value_content(*v), name@) == Some(value_content(*x)),
            None => member(value_content(*v), name@) is None,
        },
{
    v.get(name)
}

/// `serde_json::Value::as_array` gives the items of an array, in order, and
/// nothing for any other value.
pub assume_specification[ serde_json::Value::as_array ](v: &serde_json::Value) -> (r: Option<
    &Vec<serde_json::Value>,
>)
    ensures
        match r {
            Some(items) => value_content(*v) == JsonView::Array(
                Seq::new(items@.len(), |i: int| value_content(items@[i])),
            ),
            None => !(value_content(*v) is Array),
        },
;

/// Calls the `to_string` of a `serde_json::Value`, its compact text, which
/// depends on what it holds alone.
#[verifier::external_body]
pub(crate) fn value_text(v: &serde_json::Value) -> (r: String)
    ensures
        r@ == json_text(value_content(*v)),
{
    v.to_string()
}

/// Assigns `v[name] = x` (`serde_json`'s `IndexMut`): adds the member to an
/// object, or replaces it. On a value that is neither an object nor null the
/// assignment panics.
#[verifier::external_body]
pub(crate) fn set_member(v: &mut serde_json::Value, name: &str, x: serde_json::Value)
    requires
        value_content(*old(v)) is Object,
    ensures
        value_content(*final(v)) == JsonView::Object(
            value_content(*old(v))->Object_0.insert(name@, value_content(x)),
        ),
{
    v[name] = x;
}

/// Builds an object without members (`serde_json::Map::new`).
#[verifier::external_body]
pub(crate) fn empty_object() -> (r: serde_json::Value)
    ensures
        value_content(r) == JsonView::Object(Map::empty()),
{
    serde_json::Value::Object(serde_json::Map::new())
}

/// Builds a truth value (`Value::from`).
#[verifier::external_body]
pub(crate) fn flag_value(b: bool) -> (r: serde_json::Value)
    ensures
        value_content(r) == JsonView::Bool(b),
{
    serde_json::Value::from(b)
}

/// Builds a text (`Value::from`).
#[verifier::external_body]
pub(crate) fn text_value(s: &str) -> (r: serde_json::Value)
    ensures
        value_content(r) == JsonView::Text(s@),
{
    serde_json::Value::from(s)
}

// ---------------------------------------------------------------------------
// Documents
// ---------------------------------------------------------------------------
/// Reads a document from bytes, or says why there is none.
pub fn read(bytes: &[u8]) -> (r: Result<Json, String>)
    ensures
        match r {
            Ok(v) => json_of(bytes@) == Ok::<JsonView, Seq<char>>(v.view()),
            Err(e) => json_of(bytes@) == Err::<JsonView, Seq<char>>(e@),
        },
{
    match read_value(bytes) {
        Ok(v) => Ok(from_value(&v)),
        Err(e) => Err(e),
    }
}

/// Reads a document from bytes.
pub fn parse(bytes: &[u8]) -> (r: Option<Json>)
    ensures
        match r {
            Some(v) => json_in(bytes@) == Some(v.view()),
            None => json_in(bytes@) is None,
        },
{
    match read(bytes) {
        Ok(v) => Some(v),
        Err(_) => None,
    }
}

/// A document as it was read, beside what it holds.
pub struct Document {
    value: serde_json::Value,
    content: Json,
}

impl View for Document {
    type V = JsonView;

    closed spec fn view(&self) -> JsonView {
        value_content(self.value)
    }
}

impl Document {
    /// What is held beside the document is what it holds.
    pub closed spec fn wf(&self) -> bool {
        self.content.view() == value_content(self.value)
    }

    /// Reads a document from bytes.
    pub fn read(bytes: &[u8]) -> (r: Option<Document>)
        ensures
            match r {
                Some(d) => d.wf() && json_in(bytes@) == Some(d@),
                None => json_in(bytes@) is None,
            },
    {
        match read_value(bytes) {
            Ok(value) => {
                let content = from_value(&value);
                Some(Document { value, content })
            },
            Err(_) => None,
        }
    }

    /// What the document holds.
    pub fn content(&self) -> (r: &Json)
        requires
            self.wf(),
        ensures
            r.view() == self@,
    {
        &self.content
    }

    /// The texts of the first items of the array at a member, at most `most`.
    pub fn first_texts(&self, name: &str, most: usize) -> (r: Option<Vec<String>>)
        ensures
            match (as_items(member(self@, name@)), r) {
                (Some(items), Some(texts)) => {
                    &&& texts@.len() == if items.len() < most {
                        items.len()
                    } else {
                        most as nat
                    }
                    &&& forall|i: int|
                        0 <= i < texts@.len() ==> #[trigger] texts@[i]@ == json_text(items[i])
                },
                (None, None) => true,
                _ => false,
            },
    {
        let found = match value_member(&self.value, name) {
            Some(x) => x.as_array(),
            None => None,
        };
        match found {
            Some(items) => {
                let n: usize = if items.len() < most {
                    items.len()
                } else {
                    most
                };
                let mut texts: Vec<String> = Vec::new();
                let mut i: usize = 0;
                while i < n
                    invariant
                        i <= n <= items@.len(),
                        texts@.len() == i,
                        forall|k: int|
                            0 <= k < i ==> #[trigger] texts@[k]@ == json_text(
                                value_content(items@[k]),
                            ),
                    decreases n - i,
                {
                    texts.push(value_text(&items[i]));
                    i += 1;
                }
                Some(texts)
            },
            None => None,
        }
    }

    /// The text of the document with one more member, an object that holds one
    /// truth value.
    pub fn text_with_flag(self, name: &str, inner: &str, flag: bool) -> (r: String)
        requires
            self@ is Object,
        ensures
            r@ == json_text(
                JsonView::Object(
                    self@->Object_0.insert(
                        name@,
                        JsonView::Object(Map::empty().insert(inner@, JsonView::Bool(flag))),
                    ),
                ),
            ),
    {
        let mut value = self.value;
        let mut x = empty_object();
        set_member(&mut x, inner, flag_value(flag));
        set_member(&mut value, name, x);
        value_text(&value)
    }
}

// ---------------------------------------------------------------------------
// Laws
// ---------------------------------------------------------------------------
proof fn a_held_name_is_listed(members: Seq<(String, Json)>, name: Seq<char>)
    requires
        members_view(members).contains_key(name),
    ensures
        exists|i: int| 0 <= i < members.len() && (#[trigger] members[i]).0@ == name,
    decreases members.len(),
{
    if members.len() > 0 {
        let rest = members.drop_last();
        if members.last().0@ == name {
            assert(members[members.len() - 1].0@ == name);
        } else {
            a_held_name_is_listed(rest, name);
            let i = choose|i: int| 0 <= i < rest.len() && (#[trigger] rest[i]).0@ == name;
            assert(members[i].0@ == name);
        }
    }
}

proof fn a_listed_name_is_held(members: Seq<(String, Json)>, name: Seq<char>, i: int)
    requires
        0 <= i < members.len(),
        members[i].0@ == name,
    ensures
        members_view(members).contains_key(name),
        (forall|j: int| i < j < members.len() ==> (#[trigger] members[j]).0@ != name)
            ==> members_view(members)[name] == members[i].1.view(),
    decreases members.len(),
{
    let rest = members.drop_last();
    let n = members.len() - 1;
    if i < n {
        a_listed_name_is_held(rest, name, i);
        if forall|j: int| i < j < members.len() ==> (#[trigger] members[j]).0@ != name {
            assert(members[n].0@ != name);
            assert forall|j: int| i < j < rest.len() implies (#[trigger] rest[j]).0@ != name by {
                assert(members[j].0@ != name);
            }
        }
    }
}

/// A member is looked up by its very name, in an object only; of two with the same
/// name the later one is found.
pub proof fn a_member_is_found_by_its_name(v: &Json, name: &str, r: Option<&Json>, i: int)
    requires
        call_ensures(Json::get, (v, name), r),
    ensures
        !(v is Object) ==> r is None,
        v matches Json::Object(members) ==> {
            &&& r is Some <==> exists|k: int|
                0 <= k < members@.len() && (#[trigger] members@[k]).0@ == name@
            &&& 0 <= i < members@.len() && members@[i].0@ == name@ && (forall|j: int|
                i < j < members@.len() ==> (#[trigger] members@[j]).0@ != name@) ==> (
            r matches Some(x) && x.view() == members@[i].1.view())
        },
{
    if let Json::Object(members) = v {
        if r is Some {
            a_held_name_is_listed(members@, name@);
        }
        if exists|k: int| 0 <= k < members@.len() && (#[trigger] members@[k]).0@ == name@ {
            let k = choose|k: int| 0 <= k < members@.len() && (#[trigger] members@[k]).0@ == name@;
            a_listed_name_is_held(members@, name@, k);
        }
        if 0 <= i < members@.len() && members@[i].0@ == name@ {
            a_listed_name_is_held(members@, name@, i);
        }
    }
}

/// Each reader reads one sort of document, as it is, and nothing of any other.
pub proof fn each_reader_reads_one_sort(
    v: &Json,
    text: Option<&str>,
    number: Option<u64>,
    flag: Option<bool>,
    object: bool,
    null: bool,
    array: Option<&Vec<Json>>,
)
    requires
        call_ensures(Json::as_str, (v,), text),
        call_ensures(Json::as_u64, (v,), number),
        call_ensures(Json::as_bool, (v,), flag),
        call_ensures(Json::is_object, (v,), object),
        call_ensures(Json::is_null, (v,), null),
        call_ensures(Json::as_array, (v,), array),
    ensures
        match v {
            Json::Text(s) => text matches Some(t) && t@ == s@,
            _ => text is None,
        },
        match v {
            Json::Number { unsigned, .. } => number == *unsigned,
            _ => number is None,
        },
        match v {
            Json::Bool(b) => flag == Some(*b),
            _ => flag is None,
        },
        object <==> v is Object,
        null <==> v is Null,
        array is Some <==> v is Array,
        v matches Json::Array(items) ==> (array matches Some(found) && found@.len() == items@.len()),
{
    if let Json::Array(items) = v {
        items_view_len(items@);
        items_view_len(array->0@);
    }
}

/// Bytes that hold a document are read as that document, by every reader, and bytes
/// that hold none by none; why they hold none is told by the one that tells.
pub proof fn every_reader_reads_the_same(
    bytes: &[u8],
    told: Result<Json, String>,
    plain: Option<Json>,
    doc: Option<Document>,
)
    requires
        call_ensures(read, (bytes,), told),
        call_ensures(parse, (bytes,), plain),
        call_ensures(Document::read, (bytes,), doc),
    ensures
        json_of(bytes@) matches Ok(v) ==> (told matches Ok(j) && j.view() == v) && (
        plain matches Some(j) && j.view() == v) && (doc matches Some(d) && d@ == v),
        json_of(bytes@) matches Err(why) ==> (told matches Err(e) && e@ == why) && plain is None
            && doc is None,
        json_in(bytes@) is Some <==> plain is Some,
        plain matches Some(j) ==> json_in(bytes@) == Some(j.view()),
{
}

/// A document that may be there is read like one that is, and nothing is read where
/// it is not.
pub proof fn what_may_be_there_is_read_alike(
    v: Option<&Json>,
    name: &str,
    number: Option<u64>,
    inner: Option<&Json>,
    text: Option<&str>,
    items: Option<&Vec<Json>>,
    found: Option<&Json>,
    found_number: Option<u64>,
    own_text: Option<&str>,
    own_items: Option<&Vec<Json>>,
)
    requires
        call_ensures(unsigned_at, (v, name), number),
        call_ensures(get_in, (v, name), inner),
        call_ensures(text_of, (v,), text),
        call_ensures(items_of, (v,), items),
        v matches Some(x) ==> call_ensures(Json::get, (x, name), found) && call_ensures(
            Json::as_str,
            (x,),
            own_text,
        ) && call_ensures(Json::as_array, (x,), own_items),
        found matches Some(y) ==> call_ensures(Json::as_u64, (y,), found_number),
    ensures
        v is None ==> number is None && inner is None && text is None && items is None,
        v is Some ==> {
            &&& opt_view(inner) == opt_view(found)
            &&& found is Some ==> number == found_number
            &&& found is None ==> number is None
            &&& text is Some <==> own_text is Some
            &&& text is Some ==> text->0@ == own_text->0@
            &&& items is Some <==> own_items is Some
            &&& items is Some ==> items_view(items->0@) == items_view(own_items->0@)
        },
{
}

/// The first items of an array are told one by one, in order, as their texts, as many
/// as there are up to the number asked for; and a member that is added to an object
/// stands beside all that it held, in place of one of its name.
pub proof fn a_document_is_told_as_it_is(
    doc: &Document,
    name: &str,
    most: usize,
    texts: Option<Vec<String>>,
    items: Seq<JsonView>,
    i: int,
    own: Document,
    inner: &str,
    flag: bool,
    text: String,
)
    requires
        call_ensures(Document::first_texts, (doc, name, most), texts),
        call_ensures(Document::text_with_flag, (own, name, inner, flag), text),
        own@ is Object,
    ensures
        (doc@ matches JsonView::Object(m) && m.contains_key(name@) && m[name@] == JsonView::Array(
            items,
        )) ==> (texts matches Some(t) && t@.len() <= most && t@.len() <= items.len() && (t@.len()
            == most || t@.len() == items.len()) && (0 <= i < t@.len() ==> t@[i]@ == json_text(
            items[i],
        ))),
        !(doc@ matches JsonView::Object(m) && m.contains_key(name@) && m[name@] is Array)
            ==> texts is None,
        text@ == json_text(
            JsonView::Object(
                own@->Object_0.insert(
                    name@,
                    JsonView::Object(Map::empty().insert(inner@, JsonView::Bool(flag))),
                ),
            ),
        ),
{
}

} // verus!
