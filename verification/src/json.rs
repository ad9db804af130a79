//! JSON values, and the calls into `serde_json` that read and write them.
use crate::data;
use crate::text;
use serde_json::Value;
use vstd::prelude::*;

verus! {

/// A JSON number: a non-negative integer, a negative one, or the bits of a finite 64-bit float.
#[derive(Clone, Copy, Debug, PartialEq, Eq, Structural)]
pub enum Number {
    PosInt(u64),
    NegInt(i64),
    Float(u64),
}

/// A JSON value. The members of an object stand in the order in which they are written.
#[derive(Debug)]
pub enum Json {
    Null,
    Bool(bool),
    Number(Number),
    String(String),
    Array(Vec<Json>),
    Object(Vec<(String, Json)>),
}

/// What a JSON value denotes.
#[verifier::ext_equal]
pub enum JsonView {
    Null,
    Bool(bool),
    Number(Number),
    String(Seq<char>),
    Array(Seq<JsonView>),
    Object(Seq<(Seq<char>, JsonView)>),
}

impl Json {
    /// What the value denotes.
    pub open spec fn denotes(self) -> JsonView
        decreases self,
    {
        match self {
            Json::Null => JsonView::Null,
            Json::Bool(b) => JsonView::Bool(b),
            Json::Number(n) => JsonView::Number(n),
            Json::String(s) => JsonView::String(s@),
            Json::Array(items) => JsonView::Array(
                Seq::new(
                    items@.len(),
                    |i: int|
                        if 0 <= i < items@.len() {
                            items@[i].denotes()
                        } else {
                            JsonView::Null
                        },
                ),
            ),
            Json::Object(members) => JsonView::Object(
                Seq::new(
                    members@.len(),
                    |i: int|
                        if 0 <= i < members@.len() {
                            (members@[i].0@, members@[i].1.denotes())
                        } else {
                            (Seq::empty(), JsonView::Null)
                        },
                ),
            ),
        }
    }
}

impl View for Json {
    type V = JsonView;

    open spec fn view(&self) -> JsonView {
        self.denotes()
    }
}

/// The value of the first member named `key`.
pub open spec fn member(members: Seq<(Seq<char>, JsonView)>, key: Seq<char>) -> Option<JsonView>
    decreases members.len(),
{
    if members.len() == 0 {
        None
    } else if members[0].0 == key {
        Some(members[0].1)
    } else {
        member(members.drop_first(), key)
    }
}

/// The members with the first one named `key` set to `value`, or with a new one at the end.
pub open spec fn with_member(
    members: Seq<(Seq<char>, JsonView)>,
    key: Seq<char>,
    value: JsonView,
) -> Seq<(Seq<char>, JsonView)>
    decreases members.len(),
{
    if members.len() == 0 {
        seq![(key, value)]
    } else if members[0].0 == key {
        seq![(key, value)] + members.drop_first()
    } else {
        seq![members[0]] + with_member(members.drop_first(), key, value)
    }
}

/// Setting a member gives it the new value and leaves every other member as it was.
pub proof fn law_set_then_get(
    members: Seq<(Seq<char>, JsonView)>,
    key: Seq<char>,
    value: JsonView,
    other: Seq<char>,
)
    ensures
        member(with_member(members, key, value), key) == Some(value),
        other != key ==> member(with_member(members, key, value), other) == member(members, other),
    decreases members.len(),
{
    let out = with_member(members, key, value);
    reveal_with_fuel(member, 2);
    if members.len() == 0 {
        assert(out.drop_first() =~= Seq::empty());
    } else if members[0].0 == key {
        assert(out.drop_first() =~= members.drop_first());
    } else {
        law_set_then_get(members.drop_first(), key, value, other);
        assert(out.drop_first() =~= with_member(members.drop_first(), key, value));
    }
}

/// Setting a member to the value that it was just set to changes nothing.
pub proof fn law_set_twice(members: Seq<(Seq<char>, JsonView)>, key: Seq<char>, value: JsonView)
    ensures
        with_member(with_member(members, key, value), key, value) == with_member(
            members,
            key,
            value,
        ),
    decreases members.len(),
{
    let out = with_member(members, key, value);
    if members.len() == 0 {
        assert(with_member(out, key, value) =~= out);
    } else if members[0].0 == key {
        assert(with_member(out, key, value) =~= out);
    } else {
        law_set_twice(members.drop_first(), key, value);
        assert(out.drop_first() =~= with_member(members.drop_first(), key, value));
        assert(with_member(out, key, value) =~= out);
    }
}

impl JsonView {
    /// The value of the member `key` of an object.
    pub open spec fn at(self, key: Seq<char>) -> Option<JsonView> {
        match self {
            JsonView::Object(members) => member(members, key),
            _ => None,
        }
    }

    /// The text of a string.
    pub open spec fn text(self) -> Option<Seq<char>> {
        match self {
            JsonView::String(s) => Some(s),
            _ => None,
        }
    }

    /// The text of the member `key` where it is a string.
    pub open spec fn text_at(self, key: Seq<char>) -> Option<Seq<char>> {
        match self.at(key) {
            Some(v) => v.text(),
            None => None,
        }
    }

    /// The value of a number that is an unsigned 64-bit integer.
    pub open spec fn unsigned(self) -> Option<u64> {
        match self {
            JsonView::Number(Number::PosInt(n)) => Some(n),
            _ => None,
        }
    }

    /// The value of a number that is a signed 64-bit integer.
    pub open spec fn signed(self) -> Option<i64> {
        match self {
            JsonView::Number(Number::PosInt(n)) => if n <= i64::MAX {
                Some(n as i64)
            } else {
                None
            },
            JsonView::Number(Number::NegInt(n)) => Some(n),
            _ => None,
        }
    }

    /// The value of a boolean.
    pub open spec fn boolean(self) -> Option<bool> {
        match self {
            JsonView::Bool(b) => Some(b),
            _ => None,
        }
    }

    /// The items of an array.
    pub open spec fn items(self) -> Option<Seq<JsonView>> {
        match self {
            JsonView::Array(items) => Some(items),
            _ => None,
        }
    }
}

/// What the members of an object denote.
pub open spec fn member_views(members: Seq<(String, Json)>) -> Seq<(Seq<char>, JsonView)> {
    members.map_values(|m: (String, Json)| (m.0@, m.1@))
}

/// The view of an array or an object is the sequence of the views of its parts.
pub broadcast proof fn lemma_view(value: Json)
    ensures
        #![trigger value.denotes()]
        value matches Json::Array(items) ==> value.denotes() == JsonView::Array(
            data::views(items@),
        ),
        value matches Json::Object(members) ==> value.denotes() == JsonView::Object(
            member_views(members@),
        ),
{
    match value {
        Json::Array(items) => {
            assert(value.denotes()->Array_0 =~= data::views(items@));
        },
        Json::Object(members) => {
            assert(value.denotes()->Object_0 =~= member_views(members@));
        },
        _ => {},
    }
}

impl Json {
    /// A copy that denotes the same.
    pub fn copy(&self) -> (r: Json)
        ensures
            r@ == self@,
        decreases self,
    {
        broadcast use lemma_view;

        match self {
            Json::Null => Json::Null,
            Json::Bool(b) => Json::Bool(*b),
            Json::Number(n) => Json::Number(*n),
            Json::String(s) => Json::String(s.clone()),
            Json::Array(items) => {
                let mut out: Vec<Json> = Vec::new();
                let mut i: usize = 0;
                while i < items.len()
                    invariant
                        i <= items@.len(),
                        self matches Json::Array(whole) && whole == items,
                        data::views(out@) == data::views(items@).take(i as int),
                    decreases items@.len() - i,
                {
                    let ghost before = data::views(out@);
                    out.push(items[i].copy());
                    assert(data::views(out@) =~= before.push(items@[i as int]@));
                    i += 1;
                    assert(data::views(items@).take(i as int) =~= before.push(items@[i - 1]@));
                }
                assert(data::views(items@).take(i as int) =~= data::views(items@));
                Json::Array(out)
            },
            Json::Object(members) => {
                let mut out: Vec<(String, Json)> = Vec::new();
                let mut i: usize = 0;
                while i < members.len()
                    invariant
                        i <= members@.len(),
                        self matches Json::Object(whole) && whole == members,
                        member_views(out@) == member_views(members@).take(i as int),
                    decreases members@.len() - i,
                {
                    let ghost before = member_views(out@);
                    let key = members[i].0.clone();
                    let value = members[i].1.copy();
                    out.push((key, value));
                    let ghost added = (members@[i as int].0@, members@[i as int].1@);
                    assert(member_views(out@) =~= before.push(added));
                    i += 1;
                    assert(member_views(members@).take(i as int) =~= before.push(added));
                }
                assert(member_views(members@).take(i as int) =~= member_views(members@));
                Json::Object(out)
            },
        }
    }

    /// The value of the member `key` of an object.
    pub fn get(&self, key: &str) -> (r: Option<&Json>)
        ensures
            match r {
                Some(v) => self@.at(key@) == Some(v@),
                None => self@.at(key@) is None,
            },
    {
        broadcast use lemma_view;

        match self {
            Json::Object(members) => {
                let mut i: usize = 0;
                assert(member_views(members@).skip(0) =~= member_views(members@));
                while i < members.len()
                    invariant
                        i <= members@.len(),
                        self@ == JsonView::Object(member_views(members@)),
                        member(member_views(members@).skip(i as int), key@) == self@.at(key@),
                    decreases members@.len() - i,
                {
                    let ghost rest = member_views(members@).skip(i as int);
                    assert(rest[0] == (members@[i as int].0@, members@[i as int].1@));
                    assert(rest.drop_first() =~= member_views(members@).skip(i + 1));
                    if text::same(members[i].0.as_str(), key) {
                        return Some(&members[i].1);
                    }
                    i += 1;
                }
                None
            },
            _ => None,
        }
    }

    /// The text of a string.
    pub fn as_str(&self) -> (r: Option<&str>)
        ensures
            match r {
                Some(s) => self@.text() == Some(s@),
                None => self@.text() is None,
            },
    {
        match self {
            Json::String(s) => Some(s.as_str()),
            _ => None,
        }
    }

    /// The text of the member `key` where it is a string.
    pub fn get_str(&self, key: &str) -> (r: Option<&str>)
        ensures
            match r {
                Some(s) => self@.text_at(key@) == Some(s@),
                None => self@.text_at(key@) is None,
            },
    {
        match self.get(key) {
            Some(v) => v.as_str(),
            None => None,
        }
    }

    /// The value of a number that is an unsigned 64-bit integer.
    pub fn as_u64(&self) -> (r: Option<u64>)
        ensures
            r == self@.unsigned(),
    {
        match self {
            Json::Number(Number::PosInt(n)) => Some(*n),
            _ => None,
        }
    }

    /// The value of a number that is a signed 64-bit integer.
    pub fn as_i64(&self) -> (r: Option<i64>)
        ensures
            r == self@.signed(),
    {
        match self {
            Json::Number(Number::PosInt(n)) => if *n <= i64::MAX as u64 {
                Some(*n as i64)
            } else {
                None
            },
            Json::Number(Number::NegInt(n)) => Some(*n),
            _ => None,
        }
    }

    /// The value of a boolean.
    pub fn as_bool(&self) -> (r: Option<bool>)
        ensures
            r == self@.boolean(),
    {
        match self {
            Json::Bool(b) => Some(*b),
            _ => None,
        }
    }

    /// The items of an array.
    pub fn as_array(&self) -> (r: Option<&Vec<Json>>)
        ensures
            match r {
                Some(v) => self@.items() == Some(data::views(v@)),
                None => self@.items() is None,
            },
    {
        broadcast use lemma_view;

        match self {
            Json::Array(items) => Some(items),
            _ => None,
        }
    }

    /// Sets the member `key` of an object. Other values stay as they are.
    pub fn set(&mut self, key: &str, value: Json)
        ensures
            final(self)@ == (match old(self)@ {
                JsonView::Object(members) => JsonView::Object(
                    with_member(members, key@, value@),
                ),
                other => other,
            }),
    {
        broadcast use lemma_view;

        if let Json::Object(members) = self {
            let ghost before = member_views(members@);
            let mut i: usize = 0;
            assert(before.skip(0) =~= before);
            assert(before.take(0) + with_member(before, key@, value@) =~= with_member(
                before,
                key@,
                value@,
            ));
            while i < members.len() && !text::same(members[i].0.as_str(), key)
                invariant
                    i <= members@.len(),
                    before == member_views(members@),
                    with_member(before, key@, value@) == before.take(i as int) + with_member(
                        before.skip(i as int),
                        key@,
                        value@,
                    ),
                decreases members@.len() - i,
            {
                proof {
                    let rest = before.skip(i as int);
                    assert(rest[0] == (members@[i as int].0@, members@[i as int].1@));
                    assert(rest.drop_first() =~= before.skip(i + 1));
                    assert(before.take(i + 1) =~= before.take(i as int).push(rest[0]));
                    assert(before.take(i as int) + (seq![rest[0]] + with_member(
                        before.skip(i + 1),
                        key@,
                        value@,
                    )) =~= before.take(i + 1) + with_member(before.skip(i + 1), key@, value@));
                }
                i += 1;
            }
            let ghost rest = before.skip(i as int);
            if i < members.len() {
                let ghost kept = members@[i as int].0@;
                assert(rest[0] == (kept, members@[i as int].1@));
                members[i].1 = value;
                assert(member_views(members@) =~= before.take(i as int) + (seq![
                    (key@, value@),
                ] + rest.drop_first()));
            } else {
                members.push((key.to_owned(), value));
                assert(member_views(members@) =~= before.take(i as int) + seq![(key@, value@)]);
            }
        }
    }
}

/// Adds a member at the end.
pub fn put(members: &mut Vec<(String, Json)>, key: &str, value: Json)
    ensures
        member_views(final(members)@) == member_views(old(members)@).push((key@, value@)),
{
    members.push((key.to_owned(), value));
    assert(member_views(members@) =~= member_views(old(members)@).push((key@, value@)));
}

/// An object with some members.
pub fn object(members: Vec<(String, Json)>) -> (r: Json)
    ensures
        r@ == JsonView::Object(member_views(members@)),
{
    broadcast use lemma_view;

    Json::Object(members)
}

/// A string, or null.
pub open spec fn optional_text(s: Option<Seq<char>>) -> JsonView {
    match s {
        Some(s) => JsonView::String(s),
        None => JsonView::Null,
    }
}

/// A string, or null.
pub fn from_optional(s: &Option<String>) -> (r: Json)
    ensures
        r@ == optional_text(data::option_view(*s)),
{
    match s {
        Some(s) => Json::String(s.clone()),
        None => Json::Null,
    }
}

/// A number that is not negative.
pub open spec fn count(n: nat) -> JsonView {
    JsonView::Number(Number::PosInt(n as u64))
}

/// A number that is not negative.
pub fn from_count(n: usize) -> (r: Json)
    ensures
        r@ == count(n as nat),
{
    Json::Number(Number::PosInt(n as u64))
}

/// Strings, one for each text.
pub open spec fn texts(items: Seq<Seq<char>>) -> JsonView {
    JsonView::Array(items.map_values(|s: Seq<char>| JsonView::String(s)))
}

/// Strings, one for each text.
pub fn from_texts(items: Vec<String>) -> (r: Json)
    ensures
        r@ == texts(data::views(items@)),
{
    broadcast use lemma_view;

    let ghost all = data::views(items@).map_values(|s: Seq<char>| JsonView::String(s));
    let mut out: Vec<Json> = Vec::new();
    let mut i: usize = 0;
    assert(data::views(out@) =~= all.take(0));
    while i < items.len()
        invariant
            i <= items@.len(),
            all == data::views(items@).map_values(|s: Seq<char>| JsonView::String(s)),
            data::views(out@) == all.take(i as int),
        decreases items@.len() - i,
    {
        let ghost before = data::views(out@);
        let value = Json::String(items[i].clone());
        out.push(value);
        assert(data::views(out@) =~= before.push(value@));
        i += 1;
        assert(all.take(i as int) =~= all.take(i - 1).push(all[i - 1]));
    }
    assert(all.take(i as int) =~= all);
    Json::Array(out)
}

/// What a JSON value says, whatever the order in which its objects are written: an object gives each
/// of its names a value, and zero has no sign.
#[verifier::ext_equal]
pub enum Meaning {
    Null,
    Bool(bool),
    Number(Number),
    String(Seq<char>),
    Array(Seq<Meaning>),
    Object(Map<Seq<char>, Meaning>),
}

/// A number without the sign of zero.
pub open spec fn unsigned_zero(n: Number) -> Number {
    if n == Number::Float(0x8000_0000_0000_0000) {
        Number::Float(0)
    } else {
        n
    }
}

/// Position of the first member named `key`, or the length.
pub open spec fn position(members: Seq<(Seq<char>, JsonView)>, key: Seq<char>) -> int
    decreases members.len(),
{
    if members.len() == 0 || members[0].0 == key {
        0
    } else {
        1 + position(members.drop_first(), key)
    }
}

/// What a JSON value says.
pub open spec fn meaning(value: JsonView) -> Meaning
    decreases value,
{
    match value {
        JsonView::Null => Meaning::Null,
        JsonView::Bool(b) => Meaning::Bool(b),
        JsonView::Number(n) => Meaning::Number(unsigned_zero(n)),
        JsonView::String(s) => Meaning::String(s),
        JsonView::Array(items) => Meaning::Array(
            Seq::new(
                items.len(),
                |i: int|
                    if 0 <= i < items.len() {
                        meaning(items[i])
                    } else {
                        Meaning::Null
                    },
            ),
        ),
        JsonView::Object(members) => Meaning::Object(
            Map::new(
                |key: Seq<char>| 0 <= position(members, key) < members.len(),
                |key: Seq<char>|
                    if 0 <= position(members, key) < members.len() {
                        meaning(members[position(members, key)].1)
                    } else {
                        Meaning::Null
                    },
            ),
        ),
    }
}

/// Whether two JSON values say the same.
pub open spec fn same(a: JsonView, b: JsonView) -> bool {
    meaning(a) == meaning(b)
}

/// The position is that of the first member with the name, whose value is the one that the name has.
proof fn lemma_position(members: Seq<(Seq<char>, JsonView)>, key: Seq<char>)
    ensures
        0 <= position(members, key) <= members.len(),
        position(members, key) < members.len() ==> members[position(members, key)].0 == key,
        forall|k: int| 0 <= k < position(members, key) ==> (#[trigger] members[k]).0 != key,
        member(members, key) == (if position(members, key) < members.len() {
            Some(members[position(members, key)].1)
        } else {
            None
        }),
    decreases members.len(),
{
    if members.len() > 0 && members[0].0 != key {
        let rest = members.drop_first();
        lemma_position(rest, key);
        assert forall|k: int| 0 <= k < position(members, key) implies (
        #[trigger] members[k]).0 != key by {
            if k > 0 {
                assert(members[k] == rest[k - 1]);
            }
        }
    }
}

/// Two objects say the same exactly where they have the same names, each with values that say the
/// same; two arrays exactly where their items do, one by one.
pub proof fn law_same_parts_make_the_same_value(a: JsonView, b: JsonView)
    ensures
        a matches JsonView::Object(x) ==> b matches JsonView::Object(y) ==> (same(a, b) <==> forall|
            key: Seq<char>,
        | #[trigger]
            member(x, key) is Some == member(y, key) is Some && (member(x, key) is Some ==> same(
                member(x, key)->0,
                member(y, key)->0,
            ))),
        a matches JsonView::Array(x) ==> b matches JsonView::Array(y) ==> (same(a, b) <==> x.len()
            == y.len() && forall|i: int| 0 <= i < x.len() ==> same(#[trigger] x[i], y[i])),
{
    match (a, b) {
        (JsonView::Object(x), JsonView::Object(y)) => {
            let p = meaning(a)->Object_0;
            let q = meaning(b)->Object_0;
            assert forall|key: Seq<char>| same(a, b) implies #[trigger] member(x, key) is Some
                == member(y, key) is Some && (member(x, key) is Some ==> same(
                member(x, key)->0,
                member(y, key)->0,
            )) by {
                lemma_position(x, key);
                lemma_position(y, key);
                assert(p.contains_key(key) == q.contains_key(key));
                if p.contains_key(key) {
                    assert(p[key] == q[key]);
                }
            }
            if forall|key: Seq<char>| #[trigger]
                member(x, key) is Some == member(y, key) is Some && (member(x, key) is Some ==> same(
                    member(x, key)->0,
                    member(y, key)->0,
                )) {
                assert forall|key: Seq<char>| #[trigger] p.contains_key(key) == q.contains_key(key)
                    && (p.contains_key(key) ==> p[key] == q[key]) by {
                    lemma_position(x, key);
                    lemma_position(y, key);
                    assert(member(x, key) is Some == member(y, key) is Some);
                }
                assert(p =~= q);
            }
        },
        (JsonView::Array(x), JsonView::Array(y)) => {
            let p = meaning(a)->Array_0;
            let q = meaning(b)->Array_0;
            if same(a, b) {
                assert(p.len() == q.len());
                assert forall|i: int| 0 <= i < x.len() implies same(#[trigger] x[i], y[i]) by {
                    assert(p[i] == q[i]);
                }
            }
            if x.len() == y.len() && (forall|i: int|
                0 <= i < x.len() ==> same(#[trigger] x[i], y[i])) {
                assert forall|i: int| 0 <= i < p.len() implies p[i] == q[i] by {
                    assert(same(x[i], y[i]));
                }
                assert(p =~= q);
            }
        },
        _ => {},
    }
}

/// Whether two numbers are the same: integers by their value, floats by theirs.
fn same_number(a: Number, b: Number) -> (r: bool)
    ensures
        r == (unsigned_zero(a) == unsigned_zero(b)),
{
    let zero = Number::Float(0);
    let negative = Number::Float(0x8000_0000_0000_0000);
    a == b || ((a == zero || a == negative) && (b == zero || b == negative))
}

fn position_of(members: &Vec<(String, Json)>, key: &str) -> (r: usize)
    ensures
        r == position(member_views(members@), key@),
{
    let ghost all = member_views(members@);
    assert(all.len() == members@.len());
    let mut i: usize = 0;
    assert(all.skip(0) =~= all);
    while i < members.len() && !text::same(members[i].0.as_str(), key)
        invariant
            i <= members@.len(),
            all == member_views(members@),
            all.len() == members@.len(),
            position(all, key@) == i + position(all.skip(i as int), key@),
        decreases members@.len() - i,
    {
        assert(all.skip(i as int)[0] == all[i as int]);
        assert(all.skip(i as int).drop_first() =~= all.skip(i + 1));
        i += 1;
    }
    if i < members.len() {
        assert(all.skip(i as int)[0] == all[i as int]);
    }
    i
}

impl Json {
    /// Whether two values say the same.
    pub fn equals(&self, other: &Json) -> (r: bool)
        ensures
            r == same(self@, other@),
        decreases self,
    {
        broadcast use lemma_view;

        proof {
            law_same_parts_make_the_same_value(self@, other@);
        }
        match (self, other) {
            (Json::Null, Json::Null) => true,
            (Json::Bool(a), Json::Bool(b)) => *a == *b,
            (Json::Number(a), Json::Number(b)) => same_number(*a, *b),
            (Json::String(a), Json::String(b)) => text::same(a.as_str(), b.as_str()),
            (Json::Array(a), Json::Array(b)) => {
                let ghost x = data::views(a@);
                let ghost y = data::views(b@);
                assert(x.len() == a@.len() && y.len() == b@.len());
                if a.len() != b.len() {
                    return false;
                }
                let mut i: usize = 0;
                while i < a.len()
                    invariant
                        i <= a@.len(),
                        a@.len() == b@.len(),
                        x == data::views(a@),
                        y == data::views(b@),
                        x.len() == a@.len(),
                        self matches Json::Array(whole) && whole == a,
                        same(self@, other@) ==> forall|k: int|
                            0 <= k < x.len() ==> same(#[trigger] x[k], y[k]),
                        forall|k: int| 0 <= k < i ==> same(#[trigger] x[k], y[k]),
                    decreases a@.len() - i,
                {
                    assert(x[i as int] == a@[i as int]@);
                    assert(y[i as int] == b@[i as int]@);
                    if !a[i].equals(&b[i]) {
                        return false;
                    }
                    i += 1;
                }
                true
            },
            (Json::Object(a), Json::Object(b)) => {
                let ghost x = member_views(a@);
                let ghost y = member_views(b@);
                assert(x.len() == a@.len() && y.len() == b@.len());
                let mut i: usize = 0;
                while i < a.len()
                    invariant
                        i <= a@.len(),
                        x == member_views(a@),
                        y == member_views(b@),
                        x.len() == a@.len(),
                        y.len() == b@.len(),
                        self matches Json::Object(whole) && whole == a,
                        same(self@, other@) ==> forall|key: Seq<char>| #[trigger]
                            member(x, key) is Some ==> member(y, key) is Some && same(
                                member(x, key)->0,
                                member(y, key)->0,
                            ),
                        forall|k: int|
                            0 <= k < i ==> member(y, (#[trigger] x[k]).0) is Some && same(
                                member(x, x[k].0)->0,
                                member(y, x[k].0)->0,
                            ),
                    decreases a@.len() - i,
                {
                    let key = a[i].0.as_str();
                    let here = position_of(a, key);
                    let there = position_of(b, key);
                    proof {
                        lemma_position(x, key@);
                        lemma_position(y, key@);
                        assert(x[i as int].0 == key@);
                        assert(x[here as int].1 == a@[here as int].1@);
                    }
                    if there >= b.len() {
                        return false;
                    }
                    assert(y[there as int].1 == b@[there as int].1@);
                    if !a[here].1.equals(&b[there].1) {
                        return false;
                    }
                    i += 1;
                }
                let mut j: usize = 0;
                while j < b.len()
                    invariant
                        j <= b@.len(),
                        x == member_views(a@),
                        y == member_views(b@),
                        x.len() == a@.len(),
                        y.len() == b@.len(),
                        same(self@, other@) ==> forall|key: Seq<char>| #[trigger]
                            member(y, key) is Some ==> member(x, key) is Some,
                        forall|k: int| 0 <= k < j ==> member(x, (#[trigger] y[k]).0) is Some,
                    decreases b@.len() - j,
                {
                    let key = b[j].0.as_str();
                    proof {
                        lemma_position(x, key@);
                        lemma_position(y, key@);
                        assert(y[j as int].0 == key@);
                    }
                    if position_of(a, key) >= a.len() {
                        return false;
                    }
                    j += 1;
                }
                assert forall|key: Seq<char>| #[trigger] member(x, key) is Some == member(
                    y,
                    key,
                ) is Some && (member(x, key) is Some ==> same(
                    member(x, key)->0,
                    member(y, key)->0,
                )) by {
                    lemma_position(x, key);
                    lemma_position(y, key);
                    if member(x, key) is Some {
                        assert(x[position(x, key)].0 == key);
                    }
                    if member(y, key) is Some {
                        assert(y[position(y, key)].0 == key);
                    }
                }
                true
            },
            _ => false,
        }
    }
}

impl data::Duplicate for Json {
    fn duplicate(&self) -> (r: Self) {
        self.copy()
    }
}

/// The value type of `serde_json`. It is only carried between the calls below and [`Json`].
#[verifier::external_type_specification]
#[verifier::external_body]
pub struct ExValue(serde_json::Value);

/// Turns a `serde_json::Value` into a [`Json`], variant for variant: numbers by
/// `serde_json::Number::as_u64`, `as_i64` and `as_f64`, of which the first that answers is kept.
#[verifier::external_body]
fn from_value(value: Value) -> (r: Json) {
    match value {
        Value::Null => Json::Null,
        Value::Bool(b) => Json::Bool(b),
        Value::Number(n) => Json::Number(match (n.as_u64(), n.as_i64()) {
            (Some(u), _) => Number::PosInt(u),
            (_, Some(i)) => Number::NegInt(i),
            _ => Number::Float(n.as_f64().unwrap_or_default().to_bits()),
        }),
        Value::String(s) => Json::String(s),
        Value::Array(v) => Json::Array(v.into_iter().map(from_value).collect()),
        Value::Object(m) => Json::Object(
            m.into_iter().map(|(k, v)| (k, from_value(v))).collect(),
        ),
    }
}

/// Turns a [`Json`] into a `serde_json::Value`, variant for variant: a float by its bits, through
/// `bytes::Buf::get_f64` and the `From` of `serde_json::Value` for it.
#[verifier::external_body]
fn to_value(json: &Json) -> (r: Value) {
    match json {
        Json::Null => Value::Null,
        Json::Bool(b) => Value::Bool(*b),
        Json::Number(Number::PosInt(n)) => Value::from(*n),
        Json::Number(Number::NegInt(n)) => Value::from(*n),
        Json::Number(Number::Float(x)) => bytes::Buf::get_f64(&mut &x.to_be_bytes()[..]).into(),
        Json::String(s) => Value::String(s.clone()),
        Json::Array(v) => Value::Array(v.iter().map(to_value).collect()),
        Json::Object(m) => Value::Object(
            m.iter().map(|(k, v)| (k.clone(), to_value(v))).collect(),
        ),
    }
}

/// What `serde_json::from_str` reads from a text as a `serde_json::Value`, or the text of the error
/// that it reports.
pub uninterp spec fn read_text(text: Seq<char>) -> Result<JsonView, Seq<char>>;

/// What a text denotes as a JSON value, if it is one.
pub open spec fn parsed(text: Seq<char>) -> Option<JsonView> {
    match read_text(text) {
        Ok(value) => Some(value),
        Err(_) => None,
    }
}

/// What `serde_json::to_string` writes for a value.
pub uninterp spec fn compact_text(value: JsonView) -> Seq<char>;

/// What `serde_json::to_string_pretty` writes for a value.
pub uninterp spec fn pretty_text(value: JsonView) -> Seq<char>;

/// Calls `serde_json::from_str`. The result depends on the text alone and is named [`read_text`].
#[verifier::external_body]
pub(crate) fn read(text: &str) -> (r: Result<Json, String>)
    ensures
        crate::error::result_view(r) == read_text(text@),
{
    match serde_json::from_str::<serde_json::Value>(text) {
        Ok(value) => Ok(from_value(value)),
        Err(error) => Err(error.to_string()),
    }
}

/// The JSON value that a text denotes.
pub fn parse(text: &str) -> (r: Option<Json>)
    ensures
        match r {
            Some(v) => parsed(text@) == Some(v@),
            None => parsed(text@) is None,
        },
{
    match read(text) {
        Ok(value) => Some(value),
        Err(_) => None,
    }
}

/// Calls `serde_json::to_string`, which does not fail on a `serde_json::Value`. The result depends
/// on the value alone and is named [`compact_text`].
#[verifier::external_body]
pub(crate) fn to_compact(value: &Json) -> (r: String)
    ensures
        r@ == compact_text(value@),
{
    serde_json::to_string(&to_value(value)).unwrap_or_default()
}

/// Calls `serde_json::to_string_pretty`, which does not fail on a `serde_json::Value`. The result
/// depends on the value alone and is named [`pretty_text`].
#[verifier::external_body]
pub(crate) fn to_pretty(value: &Json) -> (r: String)
    ensures
        r@ == pretty_text(value@),
{
    serde_json::to_string_pretty(&to_value(value)).unwrap_or_default()
}

/// A member is found by its name where no member before it has the same one.
pub proof fn lemma_member_at(members: Seq<(Seq<char>, JsonView)>, i: int)
    requires
        0 <= i < members.len(),
        forall|k: int| 0 <= k < i ==> (#[trigger] members[k]).0 != members[i].0,
    ensures
        member(members, members[i].0) == Some(members[i].1),
{
    lemma_position(members, members[i].0);
}

} // verus!
