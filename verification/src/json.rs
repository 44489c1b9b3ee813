//! JSON values as the library holds them.

use vstd::prelude::*;
use crate::text::same_text;

verus! {

/// A JSON number. An integer is held exactly; any other number by the text
/// that JSON has for it.
#[derive(Debug, PartialEq, Eq)]
pub enum JsonNumber {
    /// An integer that is not negative.
    PosInt(u64),
    /// A negative integer.
    NegInt(i64),
    /// A number that is not an integer, as text.
    Float(String),
}

/// What a [`JsonNumber`] stands for.
pub enum JsonNumberView {
    PosInt(u64),
    NegInt(i64),
    Float(Seq<char>),
}

impl View for JsonNumber {
    type V = JsonNumberView;

    open spec fn view(&self) -> JsonNumberView {
        match self {
            JsonNumber::PosInt(n) => JsonNumberView::PosInt(*n),
            JsonNumber::NegInt(n) => JsonNumberView::NegInt(*n),
            JsonNumber::Float(text) => JsonNumberView::Float(text@),
        }
    }
}

/// A JSON value.
#[derive(Debug, PartialEq, Eq)]
pub enum Json {
    Null,
    Bool(bool),
    Number(JsonNumber),
    String(String),
    Array(Vec<Json>),
    Object(Object),
}

/// The members of a JSON object, each name at most once.
#[derive(Debug, PartialEq, Eq)]
pub struct Object {
    entries: Vec<(String, Json)>,
}

/// What a [`Json`] stands for.
pub enum JsonView {
    Null,
    Bool(bool),
    Number(JsonNumberView),
    String(Seq<char>),
    Array(Seq<JsonView>),
    Object(Seq<(Seq<char>, JsonView)>),
}

impl Json {
    /// The value that `self` stands for.
    pub open spec fn model(self) -> JsonView
        decreases self,
    {
        match self {
            Json::Null => JsonView::Null,
            Json::Bool(b) => JsonView::Bool(b),
            Json::Number(n) => JsonView::Number(n@),
            Json::String(s) => JsonView::String(s@),
            Json::Array(items) => JsonView::Array(
                Seq::new(
                    items@.len(),
                    |i: int|
                        if 0 <= i < items@.len() {
                            items@[i].model()
                        } else {
                            JsonView::Null
                        },
                ),
            ),
            Json::Object(object) => JsonView::Object(object.model()),
        }
    }
}

impl Object {
    /// The members that `self` holds, in order.
    pub closed spec fn model(self) -> Seq<(Seq<char>, JsonView)>
        decreases self,
    {
        Seq::new(
            self.entries@.len(),
            |i: int|
                if 0 <= i < self.entries@.len() {
                    (self.entries@[i].0@, self.entries@[i].1.model())
                } else {
                    (Seq::<char>::empty(), JsonView::Null)
                },
        )
    }

    /// No member name occurs twice.
    #[verifier::type_invariant]
    closed spec fn well_formed(self) -> bool {
        forall|i: int, j: int|
            0 <= i < j < self.entries@.len() ==> self.entries@[i].0@ != self.entries@[j].0@
    }
}

impl View for Json {
    type V = JsonView;

    open spec fn view(&self) -> JsonView {
        self.model()
    }
}

impl View for Object {
    type V = Seq<(Seq<char>, JsonView)>;

    open spec fn view(&self) -> Seq<(Seq<char>, JsonView)> {
        self.model()
    }
}

/// What each of several values stands for.
pub open spec fn views(values: Seq<Json>) -> Seq<JsonView> {
    Seq::new(values.len(), |i: int| values[i]@)
}

/// The name of each member differs from that of every other one.
pub open spec fn distinct_names(members: Seq<(Seq<char>, JsonView)>) -> bool {
    forall|i: int, j: int| 0 <= i < j < members.len() ==> members[i].0 != members[j].0
}

/// `members` has one of that name.
pub open spec fn has_member(members: Seq<(Seq<char>, JsonView)>, name: Seq<char>) -> bool {
    exists|i: int| 0 <= i < members.len() && members[i].0 == name
}

/// Where in `members` the one of that name stands.
pub open spec fn member_index(members: Seq<(Seq<char>, JsonView)>, name: Seq<char>) -> int {
    choose|i: int| 0 <= i < members.len() && members[i].0 == name
}

/// The value that `members` holds under `name`.
pub open spec fn member(members: Seq<(Seq<char>, JsonView)>, name: Seq<char>) -> Option<JsonView> {
    if has_member(members, name) {
        Some(members[member_index(members, name)].1)
    } else {
        None
    }
}

/// `members` without the one of that name.
pub open spec fn without_member(members: Seq<(Seq<char>, JsonView)>, name: Seq<char>) -> Seq<
    (Seq<char>, JsonView),
> {
    if has_member(members, name) {
        members.remove(member_index(members, name))
    } else {
        members
    }
}

/// `members` with `value` under `name`: in place where the name is there, else at the end.
pub open spec fn with_member(
    members: Seq<(Seq<char>, JsonView)>,
    name: Seq<char>,
    value: JsonView,
) -> Seq<(Seq<char>, JsonView)> {
    if has_member(members, name) {
        members.update(member_index(members, name), (name, value))
    } else {
        members.push((name, value))
    }
}

/// A member that is put in is found under its name, all others stay as they
/// were, and no name comes to occur twice.
pub proof fn law_with_member(
    members: Seq<(Seq<char>, JsonView)>,
    name: Seq<char>,
    value: JsonView,
    other: Seq<char>,
)
    requires
        distinct_names(members),
    ensures
        distinct_names(with_member(members, name, value)),
        member(with_member(members, name, value), other) == (if other == name {
            Some(value)
        } else {
            member(members, other)
        }),
{
    let after = with_member(members, name, value);
    let at = if has_member(members, name) {
        member_index(members, name)
    } else {
        members.len() as int
    };
    assert(after[at] == (name, value));
    if other != name && has_member(members, other) {
        let i = member_index(members, other);
        assert(after[i] == members[i]);
    }
    if has_member(after, other) {
        let j = member_index(after, other);
        assert(after[j].0 == other);
        if j != at {
            assert(members[j] == after[j]);
        }
    }
}

/// A member that is taken out is gone, and all others stay as they were.
pub proof fn law_without_member(
    members: Seq<(Seq<char>, JsonView)>,
    name: Seq<char>,
    other: Seq<char>,
)
    requires
        distinct_names(members),
    ensures
        distinct_names(without_member(members, name)),
        member(without_member(members, name), other) == (if other == name {
            None
        } else {
            member(members, other)
        }),
{
    let after = without_member(members, name);
    if has_member(members, name) {
        let at = member_index(members, name);
        if other != name && has_member(members, other) {
            let i = member_index(members, other);
            let j = if i < at {
                i
            } else {
                i - 1
            };
            assert(after[j] == members[i]);
        }
        if has_member(after, other) {
            let j = member_index(after, other);
            let i = if j < at {
                j
            } else {
                j + 1
            };
            assert(after[j] == members[i]);
        }
    }
}

impl Object {
    /// An object without members.
    pub fn new() -> (r: Self)
        ensures
            r@ == Seq::<(Seq<char>, JsonView)>::empty(),
            distinct_names(r@),
    {
        let r = Object { entries: Vec::new() };
        assert(r@ =~= Seq::<(Seq<char>, JsonView)>::empty());
        r
    }

    /// The number of members.
    pub fn len(&self) -> (r: usize)
        ensures
            r == self@.len(),
            distinct_names(self@),
    {
        proof {
            use_type_invariant(self);
        }
        self.entries.len()
    }

    /// The member at a position: its name and its value.
    pub fn at(&self, i: usize) -> (r: (&str, &Json))
        requires
            i < self@.len(),
        ensures
            (r.0@, r.1@) == self@[i as int],
    {
        let entry = &self.entries[i];
        (entry.0.as_str(), &entry.1)
    }

    /// Where the member of that name stands.
    fn find(&self, name: &str) -> (r: Option<usize>)
        ensures
            match r {
                Some(i) => i < self.entries@.len() && self@[i as int].0 == name@ && has_member(
                    self@,
                    name@,
                ) && i == member_index(self@, name@),
                None => !has_member(self@, name@),
            },
    {
        proof {
            use_type_invariant(self);
        }
        let mut i: usize = 0;
        while i < self.entries.len()
            invariant
                i <= self.entries@.len(),
                self.well_formed(),
                forall|j: int| 0 <= j < i ==> self@[j].0 != name@,
            decreases self.entries@.len() - i,
        {
            if same_text(self.entries[i].0.as_str(), name) {
                assert(self@[i as int].0 == name@);
                assert(forall|j: int| 0 <= j < self@.len() ==> self@[j].0 == self.entries@[j].0@);
                return Some(i);
            }
            i += 1;
        }
        None
    }

    /// The value under a name.
    pub fn get(&self, name: &str) -> (r: Option<&Json>)
        ensures
            match r {
                Some(value) => member(self@, name@) == Some(value@),
                None => member(self@, name@) is None,
            },
    {
        match self.find(name) {
            Some(i) => Some(&self.entries[i].1),
            None => None,
        }
    }

    /// Takes the member of that name out and returns its value.
    pub fn remove(&mut self, name: &str) -> (r: Option<Json>)
        ensures
            final(self)@ == without_member(old(self)@, name@),
            distinct_names(final(self)@),
            match r {
                Some(value) => member(old(self)@, name@) == Some(value@),
                None => member(old(self)@, name@) is None,
            },
    {
        proof {
            use_type_invariant(&*self);
        }
        match self.find(name) {
            Some(i) => {
                let mut entries: Vec<(String, Json)> = Vec::new();
                std::mem::swap(&mut entries, &mut self.entries);
                let (_, value) = entries.remove(i);
                self.entries = entries;
                assert(self@ =~= without_member(old(self)@, name@));
                Some(value)
            },
            None => None,
        }
    }

    /// Puts a value under a name, in place of the value that was there.
    pub fn insert(&mut self, name: String, value: Json)
        ensures
            final(self)@ == with_member(old(self)@, name@, value@),
            distinct_names(final(self)@),
    {
        proof {
            use_type_invariant(&*self);
        }
        let at = self.find(name.as_str());
        let mut entries: Vec<(String, Json)> = Vec::new();
        std::mem::swap(&mut entries, &mut self.entries);
        match at {
            Some(i) => {
                entries[i] = (name, value);
            },
            None => {
                assert forall|j: int| 0 <= j < entries@.len() implies entries@[j].0@ != name@ by {
                    assert(old(self)@[j].0 == entries@[j].0@);
                }
                entries.push((name, value));
            },
        }
        self.entries = entries;
        assert(self@ =~= with_member(old(self)@, name@, value@));
    }
}

impl Clone for JsonNumber {
    fn clone(&self) -> (r: Self)
        ensures
            r@ == self@,
    {
        match self {
            JsonNumber::PosInt(n) => JsonNumber::PosInt(*n),
            JsonNumber::NegInt(n) => JsonNumber::NegInt(*n),
            JsonNumber::Float(text) => JsonNumber::Float(text.clone()),
        }
    }
}

impl Clone for Json {
    fn clone(&self) -> (r: Self)
        ensures
            r@ == self@,
        decreases self,
    {
        match self {
            Json::Null => Json::Null,
            Json::Bool(b) => Json::Bool(*b),
            Json::Number(n) => Json::Number(n.clone()),
            Json::String(s) => Json::String(s.clone()),
            Json::Array(items) => {
                let mut copies: Vec<Json> = Vec::new();
                let mut i: usize = 0;
                while i < items.len()
                    invariant
                        *self == Json::Array(*items),
                        i <= items@.len(),
                        copies@.len() == i,
                        forall|j: int| 0 <= j < i ==> copies@[j]@ == items@[j]@,
                    decreases items@.len() - i,
                {
                    assert(decreases_to!(*self => self->Array_0@[i as int]));
                    copies.push(items[i].clone());
                    i += 1;
                }
                let r = Json::Array(copies);
                assert(r@->Array_0 =~= self@->Array_0);
                r
            },
            Json::Object(object) => Json::Object(object.clone()),
        }
    }
}

impl Clone for Object {
    fn clone(&self) -> (r: Self)
        ensures
            r@ == self@,
        decreases self,
    {
        proof {
            use_type_invariant(self);
        }
        let mut entries: Vec<(String, Json)> = Vec::new();
        let mut i: usize = 0;
        while i < self.entries.len()
            invariant
                i <= self.entries@.len(),
                entries@.len() == i,
                forall|j: int|
                    0 <= j < i ==> entries@[j].0@ == self.entries@[j].0@ && entries@[j].1@
                        == self.entries@[j].1@,
            decreases self.entries@.len() - i,
        {
            let entry = &self.entries[i];
            entries.push((entry.0.clone(), entry.1.clone()));
            i += 1;
        }
        let r = Object { entries };
        assert(r@ =~= self@);
        r
    }
}

impl Json {
    /// Tells whether the value is `null`.
    pub fn is_null(&self) -> (r: bool)
        ensures
            r == (self@ == JsonView::Null),
    {
        match self {
            Json::Null => true,
            _ => false,
        }
    }

    /// The members, where the value is an object.
    pub fn as_object(&self) -> (r: Option<&Object>)
        ensures
            match r {
                Some(object) => self@ == JsonView::Object(object@) && distinct_names(object@),
                None => !(self@ is Object),
            },
    {
        match self {
            Json::Object(object) => {
                proof {
                    use_type_invariant(object);
                }
                Some(object)
            },
            _ => None,
        }
    }

    /// Takes the members out, where the value is an object.
    pub fn into_object(self) -> (r: Option<Object>)
        ensures
            match r {
                Some(object) => self@ == JsonView::Object(object@) && distinct_names(object@),
                None => !(self@ is Object),
            },
    {
        match self {
            Json::Object(object) => {
                proof {
                    use_type_invariant(&object);
                }
                Some(object)
            },
            _ => None,
        }
    }

    /// The elements, where the value is an array.
    pub fn as_array(&self) -> (r: Option<&Vec<Json>>)
        ensures
            match r {
                Some(items) => self@ == JsonView::Array(views(items@)),
                None => !(self@ is Array),
            },
    {
        match self {
            Json::Array(items) => {
                assert(self@->Array_0 =~= views(items@));
                Some(items)
            },
            _ => None,
        }
    }

    /// The text, where the value is a string.
    pub fn as_str(&self) -> (r: Option<&str>)
        ensures
            match r {
                Some(s) => self@ == JsonView::String(s@),
                None => !(self@ is String),
            },
    {
        match self {
            Json::String(s) => Some(s.as_str()),
            _ => None,
        }
    }

    /// The truth value, where the value is a boolean.
    pub fn as_bool(&self) -> (r: Option<bool>)
        ensures
            match r {
                Some(b) => self@ == JsonView::Bool(b),
                None => !(self@ is Bool),
            },
    {
        match self {
            Json::Bool(b) => Some(*b),
            _ => None,
        }
    }
}

/// Each kind of value stands for what it holds.
pub proof fn law_json_stands_for_what_it_holds(
    b: bool,
    n: u64,
    m: i64,
    text: String,
    items: Vec<Json>,
    object: Object,
)
    ensures
        Json::Null@ == JsonView::Null,
        Json::Bool(b)@ == JsonView::Bool(b),
        Json::Number(JsonNumber::PosInt(n))@ == JsonView::Number(JsonNumberView::PosInt(n)),
        Json::Number(JsonNumber::NegInt(m))@ == JsonView::Number(JsonNumberView::NegInt(m)),
        Json::Number(JsonNumber::Float(text))@ == JsonView::Number(JsonNumberView::Float(text@)),
        Json::String(text)@ == JsonView::String(text@),
        Json::Array(items)@ matches JsonView::Array(views) && views.len() == items@.len()
            && forall|i: int| 0 <= i < views.len() ==> #[trigger] views[i] == items@[i]@,
        Json::Object(object)@ == JsonView::Object(object@),
{
}

/// A member is found under its name, and only there.
pub proof fn law_member_is_found(members: Seq<(Seq<char>, JsonView)>, name: Seq<char>, i: int)
    requires
        forall|a: int, b: int| 0 <= a < b < members.len() ==> members[a].0 != members[b].0,
    ensures
        0 <= i < members.len() && members[i].0 == name ==> member(members, name) == Some(
            members[i].1,
        ),
        (forall|j: int| 0 <= j < members.len() ==> (#[trigger] members[j]).0 != name) <==> member(
            members,
            name,
        ) is None,
{
}

/// Looking a name up gives the value that stands under it.
pub proof fn law_lookup_gives_the_member(object: &Object, name: &str, r: Option<&Json>)
    requires
        call_ensures(Object::get, (object, name), r),
    ensures
        match r {
            Some(value) => object@.contains((name@, value@)),
            None => forall|i: int| 0 <= i < object@.len() ==> (#[trigger] object@[i]).0 != name@,
        },
{
    if let Some(value) = r {
        let i = member_index(object@, name@);
        assert(object@[i] == (name@, value@));
    }
}

/// What kind a value is, and what it holds.
pub proof fn law_kinds_are_told_apart(
    json: &Json,
    null: bool,
    text: Option<&str>,
    truth: Option<bool>,
    items: Option<&Vec<Json>>,
    object: Option<&Object>,
)
    requires
        call_ensures(Json::is_null, (json,), null),
        call_ensures(Json::as_str, (json,), text),
        call_ensures(Json::as_bool, (json,), truth),
        call_ensures(Json::as_array, (json,), items),
        call_ensures(Json::as_object, (json,), object),
    ensures
        null <==> json@ == JsonView::Null,
        text is None <==> !(json@ is String),
        text matches Some(s) ==> json@ == JsonView::String(s@),
        truth is None <==> !(json@ is Bool),
        truth matches Some(b) ==> json@ == JsonView::Bool(b),
        items is None <==> !(json@ is Array),
        items matches Some(list) ==> (json@ matches JsonView::Array(elements) && elements.len()
            == list@.len() && forall|i: int|
            0 <= i < elements.len() ==> #[trigger] elements[i] == list@[i]@),
        object is None <==> !(json@ is Object),
        object matches Some(members) ==> json@ == JsonView::Object(members@),
{
}

/// After a member is put in there is just that one under its name, and every
/// other one is there as before.
pub proof fn law_member_is_put_in(object: &mut Object, name: String, value: Json)
    requires
        forall|i: int, j: int|
            0 <= i < j < old(object)@.len() ==> old(object)@[i].0 != old(object)@[j].0,
        call_ensures(Object::insert, (object, name, value), ()),
    ensures
        forall|entry: (Seq<char>, JsonView)| #[trigger]
            final(object)@.contains(entry) <==> entry == (name@, value@) || (old(
                object,
            )@.contains(entry) && entry.0 != name@),
{
    let before = old(object)@;
    let after = final(object)@;
    assert forall|entry: (Seq<char>, JsonView)| #[trigger]
        after.contains(entry) <==> entry == (name@, value@) || (before.contains(entry) && entry.0
            != name@) by {
        law_with_member(before, name@, value@, entry.0);
        lemma_contains(before, entry);
        lemma_contains(after, entry);
    }
}

/// After a member is taken out there is none under its name, and every other one
/// is there as before. What comes out is the value that it had.
pub proof fn law_member_is_taken_out(object: &mut Object, name: &str, r: Option<Json>)
    requires
        forall|i: int, j: int|
            0 <= i < j < old(object)@.len() ==> old(object)@[i].0 != old(object)@[j].0,
        call_ensures(Object::remove, (object, name), r),
    ensures
        forall|entry: (Seq<char>, JsonView)| #[trigger]
            final(object)@.contains(entry) <==> old(object)@.contains(entry) && entry.0 != name@,
        match r {
            Some(value) => old(object)@.contains((name@, value@)),
            None => forall|i: int|
                0 <= i < old(object)@.len() ==> (#[trigger] old(object)@[i]).0 != name@,
        },
{
    let before = old(object)@;
    let after = final(object)@;
    assert forall|entry: (Seq<char>, JsonView)| #[trigger]
        after.contains(entry) <==> before.contains(entry) && entry.0 != name@ by {
        law_without_member(before, name@, entry.0);
        lemma_contains(before, entry);
        lemma_contains(after, entry);
    }
    if let Some(value) = r {
        lemma_contains(before, (name@, value@));
    }
}

/// An entry is there just where its value is found under its name.
proof fn lemma_contains(members: Seq<(Seq<char>, JsonView)>, entry: (Seq<char>, JsonView))
    requires
        distinct_names(members),
    ensures
        members.contains(entry) <==> member(members, entry.0) == Some(entry.1),
{
    if members.contains(entry) {
        let i = choose|i: int| 0 <= i < members.len() && members[i] == entry;
        law_member_is_found(members, entry.0, i);
    }
    if member(members, entry.0) == Some(entry.1) {
        let i = member_index(members, entry.0);
        assert(members[i] == entry);
    }
}

} // verus!
