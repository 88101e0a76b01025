//! JSON values as plain data.

use vstd::prelude::*;

use crate::text;

verus! {

/// A JSON value. An object is a list of fields.
#[derive(Debug, PartialEq)]
pub enum Json {
    Null,
    Bool(bool),
    /// A whole number that is not negative.
    Uint(u64),
    /// A negative whole number.
    Neg(i64),
    /// A number that is not whole, as it was written.
    Float(String),
    Str(String),
    Arr(Vec<Json>),
    Obj(Vec<(String, Json)>),
}

/// What a JSON value holds.
pub enum JsonView {
    Null,
    Bool(bool),
    Uint(u64),
    Neg(i64),
    Float(Seq<char>),
    Str(Seq<char>),
    Arr(Seq<JsonView>),
    Obj(Seq<(Seq<char>, JsonView)>),
}

/// What each value of a list holds.
pub open spec fn items_view(s: Seq<Json>) -> Seq<JsonView>
    decreases s,
{
    if s.len() == 0 {
        Seq::empty()
    } else {
        items_view(s.drop_last()).push(value_view(s.last()))
    }
}

/// What each field of a list holds.
pub open spec fn fields_view(s: Seq<(String, Json)>) -> Seq<(Seq<char>, JsonView)>
    decreases s,
{
    if s.len() == 0 {
        Seq::empty()
    } else {
        fields_view(s.drop_last()).push((s.last().0@, value_view(s.last().1)))
    }
}

/// What a value holds.
pub open spec fn value_view(j: Json) -> JsonView
    decreases j,
{
    match j {
        Json::Null => JsonView::Null,
        Json::Bool(b) => JsonView::Bool(b),
        Json::Uint(n) => JsonView::Uint(n),
        Json::Neg(n) => JsonView::Neg(n),
        Json::Float(s) => JsonView::Float(s@),
        Json::Str(s) => JsonView::Str(s@),
        Json::Arr(v) => JsonView::Arr(items_view(v@)),
        Json::Obj(v) => JsonView::Obj(fields_view(v@)),
    }
}

impl View for Json {
    type V = JsonView;

    open spec fn view(&self) -> JsonView {
        value_view(*self)
    }
}

/// The list without fields.
pub open spec fn empty_fields() -> Seq<(Seq<char>, JsonView)> {
    Seq::empty()
}

/// What a whole number is as a JSON value.
pub open spec fn int_view(n: i64) -> JsonView {
    if n < 0 {
        JsonView::Neg(n)
    } else {
        JsonView::Uint(n as u64)
    }
}

/// What an optional text is as a JSON value.
pub open spec fn opt_text_view(s: Option<Seq<char>>) -> JsonView {
    match s {
        Some(t) => JsonView::Str(t),
        None => JsonView::Null,
    }
}

/// The list of texts as a JSON value.
pub open spec fn texts_view(s: Seq<Seq<char>>) -> JsonView {
    JsonView::Arr(Seq::new(s.len(), |i: int| JsonView::Str(s[i])))
}

/// The value of the last field of that name.
pub open spec fn lookup(fields: Seq<(Seq<char>, JsonView)>, key: Seq<char>) -> Option<JsonView>
    decreases fields.len(),
{
    if fields.len() == 0 {
        None
    } else if fields.last().0 == key {
        Some(fields.last().1)
    } else {
        lookup(fields.drop_last(), key)
    }
}

/// The value of a field; nothing where the value is no object or has no such field.
pub open spec fn field(j: JsonView, key: Seq<char>) -> Option<JsonView> {
    match j {
        JsonView::Obj(fields) => lookup(fields, key),
        _ => None,
    }
}

/// The text that an optional value is.
pub open spec fn text_of(j: Option<JsonView>) -> Option<Seq<char>> {
    match j {
        Some(JsonView::Str(s)) => Some(s),
        _ => None,
    }
}

/// The number that an optional value is, where it is whole and fits in 64 bits with a sign.
pub open spec fn i64_of(j: Option<JsonView>) -> Option<i64> {
    match j {
        Some(JsonView::Uint(n)) => if n <= i64::MAX {
            Some(n as i64)
        } else {
            None
        },
        Some(JsonView::Neg(n)) => Some(n),
        _ => None,
    }
}

/// The number that an optional value is, where it is whole and not negative.
pub open spec fn u64_of(j: Option<JsonView>) -> Option<u64> {
    match j {
        Some(JsonView::Uint(n)) => Some(n),
        _ => None,
    }
}

/// The optional value is the truth value `true`.
pub open spec fn is_true(j: Option<JsonView>) -> bool {
    j == Some(JsonView::Bool(true))
}

/// What an optional reference to a value holds.
pub open spec fn opt_value_view(j: Option<&Json>) -> Option<JsonView> {
    match j {
        Some(v) => Some(v@),
        None => None,
    }
}

proof fn lemma_fields_push(s: Seq<(String, Json)>, f: (String, Json))
    ensures
        fields_view(s.push(f)) == fields_view(s).push((f.0@, value_view(f.1))),
{
    assert(s.push(f).drop_last() =~= s);
}

proof fn lemma_items_push(s: Seq<Json>, j: Json)
    ensures
        items_view(s.push(j)) == items_view(s).push(value_view(j)),
{
    assert(s.push(j).drop_last() =~= s);
}

/// Adds a field to the end of a list of fields.
pub fn put(fields: &mut Vec<(String, Json)>, key: &str, value: Json)
    ensures
        fields_view(final(fields)@) == fields_view(old(fields)@).push((key@, value@)),
{
    let name = String::from_str(key);
    proof {
        lemma_fields_push(fields@, (name, value));
    }
    fields.push((name, value));
}

/// Adds a value to the end of a list.
pub fn push_item(items: &mut Vec<Json>, value: Json)
    ensures
        items_view(final(items)@) == items_view(old(items)@).push(value@),
{
    proof {
        lemma_items_push(items@, value);
    }
    items.push(value);
}

/// A list without fields.
pub fn no_fields() -> (r: Vec<(String, Json)>)
    ensures
        fields_view(r@) == empty_fields(),
{
    Vec::new()
}

/// The text as a value.
pub fn text_value(s: &str) -> (r: Json)
    ensures
        r@ == JsonView::Str(s@),
{
    Json::Str(String::from_str(s))
}

/// The optional text as a value.
pub fn opt_text_value(s: Option<&str>) -> (r: Json)
    ensures
        r@ == opt_text_view(text::opt_str_view(s)),
{
    match s {
        Some(t) => text_value(t),
        None => Json::Null,
    }
}

/// The number as a value.
pub fn int_value(n: i64) -> (r: Json)
    ensures
        r@ == int_view(n),
{
    if n < 0 {
        Json::Neg(n)
    } else {
        Json::Uint(n as u64)
    }
}

/// The list of texts as a value.
pub fn texts_value(s: &Vec<String>) -> (r: Json)
    ensures
        r@ == texts_view(text::strings_view(s@)),
{
    let mut items: Vec<Json> = Vec::new();
    let mut i: usize = 0;
    let ghost all = text::strings_view(s@);
    let ghost want = Seq::new(all.len(), |k: int| JsonView::Str(all[k]));
    while i < s.len()
        invariant
            i <= s@.len(),
            all == text::strings_view(s@),
            want == Seq::new(all.len(), |k: int| JsonView::Str(all[k])),
            items_view(items@) == want.take(i as int),
        decreases s@.len() - i,
    {
        push_item(&mut items, text_value(s[i].as_str()));
        assert(want.take(i + 1) =~= want.take(i as int).push(JsonView::Str(s@[i as int]@)));
        i = i + 1;
    }
    assert(want.take(want.len() as int) =~= want);
    Json::Arr(items)
}

impl Json {
    /// The value of a field; nothing where this is no object or has no such field.
    pub fn get(&self, key: &str) -> (r: Option<&Json>)
        ensures
            opt_value_view(r) == field(self@, key@),
    {
        match self {
            Json::Obj(v) => {
                let mut n: usize = v.len();
                assert(v@.take(n as int) =~= v@);
                while n > 0
                    invariant
                        n <= v@.len(),
                        self@ == JsonView::Obj(fields_view(v@)),
                        lookup(fields_view(v@), key@) == lookup(fields_view(v@.take(n as int)), key@),
                    decreases n,
                {
                    proof {
                        let t = v@.take(n as int);
                        assert(t.drop_last() =~= v@.take(n - 1));
                        assert(t.last() == v@[n - 1]);
                        assert(fields_view(t).drop_last() =~= fields_view(t.drop_last()));
                    }
                    if text::str_eq(v[n - 1].0.as_str(), key) {
                        return Some(&v[n - 1].1);
                    }
                    n = n - 1;
                }
                assert(fields_view(v@.take(0)) =~= Seq::<(Seq<char>, JsonView)>::empty());
                None
            },
            _ => None,
        }
    }

    /// The number of a field that is whole and fits in 64 bits with a sign.
    pub fn get_i64(&self, key: &str) -> (r: Option<i64>)
        ensures
            r == i64_of(field(self@, key@)),
    {
        match self.get(key) {
            Some(Json::Uint(n)) => {
                if *n <= i64::MAX as u64 {
                    Some(*n as i64)
                } else {
                    None
                }
            },
            Some(Json::Neg(n)) => Some(*n),
            _ => None,
        }
    }

    /// The number of a field that is whole and not negative.
    pub fn get_u64(&self, key: &str) -> (r: Option<u64>)
        ensures
            r == u64_of(field(self@, key@)),
    {
        match self.get(key) {
            Some(Json::Uint(n)) => Some(*n),
            _ => None,
        }
    }

    /// The text of a field that is a text.
    pub fn get_text(&self, key: &str) -> (r: Option<&str>)
        ensures
            text::opt_str_view(r) == text_of(field(self@, key@)),
    {
        match self.get(key) {
            Some(Json::Str(s)) => Some(s.as_str()),
            _ => None,
        }
    }

    /// Tells whether a field is the truth value `true`.
    pub fn field_is_true(&self, key: &str) -> (r: bool)
        ensures
            r == is_true(field(self@, key@)),
    {
        match self.get(key) {
            Some(Json::Bool(b)) => *b,
            _ => false,
        }
    }
}

// ---------------------------------------------------------------------------------------------
// Laws
// ---------------------------------------------------------------------------------------------

/// Looking up a name in a list with one more field.
pub broadcast proof fn lemma_lookup_push(
    fields: Seq<(Seq<char>, JsonView)>,
    f: (Seq<char>, JsonView),
    key: Seq<char>,
)
    ensures
        #[trigger] lookup(fields.push(f), key) == if f.0 == key {
            Some(f.1)
        } else {
            lookup(fields, key)
        },
{
    assert(fields.push(f).drop_last() =~= fields);
}

/// The value of a field is that of the last field of its name, whatever else the object holds.
pub proof fn law_last_field_counts(fields: Seq<(Seq<char>, JsonView)>, key: Seq<char>, i: int)
    requires
        0 <= i < fields.len(),
        fields[i].0 == key,
        forall|j: int| i < j < fields.len() ==> (#[trigger] fields[j]).0 != key,
    ensures
        field(JsonView::Obj(fields), key) == Some(fields[i].1),
    decreases fields.len(),
{
    let n = fields.len() - 1;
    if i < n {
        assert(fields[n].0 != key);
        let less = fields.drop_last();
        assert forall|j: int| i < j < less.len() implies (#[trigger] less[j]).0 != key by {
            assert(less[j] == fields[j]);
        }
        law_last_field_counts(less, key, i);
    }
}

/// A field that no object holds has no value, and what is no object has no fields.
pub proof fn law_missing_field(j: JsonView, key: Seq<char>)
    requires
        match j {
            JsonView::Obj(fields) => forall|i: int| 0 <= i < fields.len() ==> (#[trigger] fields[i]).0 != key,
            _ => true,
        },
    ensures
        field(j, key) is None,
{
    if let JsonView::Obj(fields) = j {
        lemma_lookup_missing(fields, key);
    }
}

proof fn lemma_lookup_missing(fields: Seq<(Seq<char>, JsonView)>, key: Seq<char>)
    requires
        forall|i: int| 0 <= i < fields.len() ==> (#[trigger] fields[i]).0 != key,
    ensures
        lookup(fields, key) is None,
    decreases fields.len(),
{
    if fields.len() > 0 {
        assert(fields[fields.len() - 1].0 != key);
        let less = fields.drop_last();
        assert forall|i: int| 0 <= i < less.len() implies (#[trigger] less[i]).0 != key by {
            assert(less[i] == fields[i]);
        }
        lemma_lookup_missing(less, key);
    }
}

/// A whole number keeps its value as a JSON value, and reads back as itself.
pub proof fn law_numbers_read_back(n: i64)
    ensures
        i64_of(Some(int_view(n))) == Some(n),
        u64_of(Some(int_view(n))) == if n >= 0 {
            Some(n as u64)
        } else {
            None
        },
{
}

/// A list of texts holds each text at its place, and nothing else.
pub proof fn law_texts_are_listed(s: Seq<Seq<char>>)
    ensures
        texts_view(s) matches JsonView::Arr(items) && items.len() == s.len() && forall|i: int|
            0 <= i < s.len() ==> text_of(Some(#[trigger] items[i])) == Some(s[i]),
        text_of(Some(JsonView::Null)) is None,
{
}

/// An optional text reads back as itself.
pub proof fn law_optional_texts_read_back(s: Option<Seq<char>>)
    ensures
        text_of(Some(opt_text_view(s))) == s,
        s is None ==> opt_text_view(s) is Null,
{
}

/// Only whole numbers read as numbers, only texts as texts, and only `true` as true.
pub proof fn law_values_read_as_what_they_are(n: u64, m: i64, s: Seq<char>, b: bool)
    ensures
        u64_of(Some(JsonView::Uint(n))) == Some(n),
        u64_of(Some(JsonView::Neg(m))) is None,
        n <= i64::MAX ==> i64_of(Some(JsonView::Uint(n))) == Some(n as i64),
        n > i64::MAX ==> i64_of(Some(JsonView::Uint(n))) is None,
        i64_of(Some(JsonView::Neg(m))) == Some(m),
        text_of(Some(JsonView::Str(s))) == Some(s),
        i64_of(Some(JsonView::Str(s))) is None,
        u64_of(Some(JsonView::Str(s))) is None,
        text_of(Some(JsonView::Uint(n))) is None,
        is_true(Some(JsonView::Bool(b))) == b,
        !is_true(Some(JsonView::Uint(n))),
        !is_true(Some(JsonView::Str(s))),
        !is_true(None),
        i64_of(None) is None,
        u64_of(None) is None,
        text_of(None) is None,
{
}

/// What a value holds is what it is made of: a list holds its items at their places, and an object its
/// fields at theirs.
pub proof fn law_values_hold_what_they_are_made_of(j: Json)
    ensures
        match j {
            Json::Null => j@ is Null,
            Json::Bool(b) => j@ == JsonView::Bool(b),
            Json::Uint(n) => j@ == JsonView::Uint(n),
            Json::Neg(n) => j@ == JsonView::Neg(n),
            Json::Float(s) => j@ == JsonView::Float(s@),
            Json::Str(s) => j@ == JsonView::Str(s@),
            Json::Arr(v) => j@ matches JsonView::Arr(items) && items.len() == v@.len() && forall|i: int|
                0 <= i < v@.len() ==> #[trigger] items[i] == v@[i]@,
            Json::Obj(v) => j@ matches JsonView::Obj(fields) && fields.len() == v@.len() && forall|i: int|
                0 <= i < v@.len() ==> (#[trigger] fields[i]).0 == v@[i].0@ && fields[i].1 == v@[i].1@,
        },
{
    match j {
        Json::Arr(v) => lemma_items(v@),
        Json::Obj(v) => lemma_fields(v@),
        _ => {},
    }
}

proof fn lemma_items(s: Seq<Json>)
    ensures
        items_view(s).len() == s.len(),
        forall|i: int| 0 <= i < s.len() ==> #[trigger] items_view(s)[i] == s[i]@,
    decreases s.len(),
{
    if s.len() > 0 {
        lemma_items(s.drop_last());
        assert forall|i: int| 0 <= i < s.len() implies #[trigger] items_view(s)[i] == s[i]@ by {
            if i < s.len() - 1 {
                assert(items_view(s)[i] == items_view(s.drop_last())[i]);
                assert(s.drop_last()[i] == s[i]);
            }
        }
    }
}

proof fn lemma_fields(s: Seq<(String, Json)>)
    ensures
        fields_view(s).len() == s.len(),
        forall|i: int|
            0 <= i < s.len() ==> (#[trigger] fields_view(s)[i]).0 == s[i].0@ && fields_view(s)[i].1 == s[i].1@,
    decreases s.len(),
{
    if s.len() > 0 {
        lemma_fields(s.drop_last());
        assert forall|i: int| 0 <= i < s.len() implies (#[trigger] fields_view(s)[i]).0 == s[i].0@
            && fields_view(s)[i].1 == s[i].1@ by {
            if i < s.len() - 1 {
                assert(fields_view(s)[i] == fields_view(s.drop_last())[i]);
                assert(s.drop_last()[i] == s[i]);
            }
        }
    }
}

} // verus!
