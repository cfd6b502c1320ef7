//! JSON values.
use crate::text;
use vstd::prelude::*;

verus! {

/// A JSON value. A number is kept as it is written; the members of an object
/// stand in the order of the parser, each name once.
#[derive(Debug, PartialEq, Eq)]
pub enum Json {
    Null,
    Bool(bool),
    Number(String),
    Text(String),
    Array(Vec<Json>),
    Object(Vec<(String, Json)>),
}

pub enum JsonView {
    Null,
    Bool(bool),
    Number(Seq<char>),
    Text(Seq<char>),
    Array(Seq<JsonView>),
    Object(Seq<(Seq<char>, JsonView)>),
}

impl Json {
    pub open spec fn value(self) -> JsonView
        decreases self,
    {
        match self {
            Json::Null => JsonView::Null,
            Json::Bool(b) => JsonView::Bool(b),
            Json::Number(n) => JsonView::Number(n@),
            Json::Text(t) => JsonView::Text(t@),
            Json::Array(items) => JsonView::Array(
                Seq::new(
                    items@.len(),
                    |i: int|
                        if 0 <= i < items@.len() {
                            items@[i].value()
                        } else {
                            JsonView::Null
                        },
                ),
            ),
            Json::Object(members) => JsonView::Object(
                Seq::new(
                    members@.len(),
                    |i: int|
                        if 0 <= i < members@.len() {
                            (members@[i].0@, members@[i].1.value())
                        } else {
                            (Seq::empty(), JsonView::Null)
                        },
                ),
            ),
        }
    }
}

impl JsonView {
    /// The member of an object with that name.
    pub open spec fn get(self, key: Seq<char>) -> Option<JsonView> {
        match self {
            JsonView::Object(members) => member(members, key),
            _ => None,
        }
    }

    pub open spec fn text(self) -> Option<Seq<char>> {
        match self {
            JsonView::Text(t) => Some(t),
            _ => None,
        }
    }

    pub open spec fn truth(self) -> Option<bool> {
        match self {
            JsonView::Bool(b) => Some(b),
            _ => None,
        }
    }

    /// The text of the member with that name, where it is a string.
    pub open spec fn text_at(self, key: Seq<char>) -> Option<Seq<char>> {
        match self.get(key) {
            Some(v) => v.text(),
            None => None,
        }
    }

    /// The truth value of the member with that name, where it is one.
    pub open spec fn truth_at(self, key: Seq<char>) -> Option<bool> {
        match self.get(key) {
            Some(v) => v.truth(),
            None => None,
        }
    }
}

pub open spec fn member(members: Seq<(Seq<char>, JsonView)>, key: Seq<char>) -> Option<JsonView>
    decreases members.len(),
{
    if members.len() == 0 {
        None
    } else if members[0].0 == key {
        Some(members[0].1)
    } else {
        member(members.subrange(1, members.len() as int), key)
    }
}

/// A member of two lists one after the other is the first one's, or else the second one's.
pub proof fn lemma_member_join(
    a: Seq<(Seq<char>, JsonView)>,
    b: Seq<(Seq<char>, JsonView)>,
    key: Seq<char>,
)
    ensures
        member(a + b, key) == match member(a, key) {
            Some(v) => Some(v),
            None => member(b, key),
        },
    decreases a.len(),
{
    if a.len() == 0 {
        assert(a + b =~= b);
    } else if a[0].0 == key {
        assert((a + b)[0] == a[0]);
    } else {
        let rest = a.subrange(1, a.len() as int);
        assert((a + b)[0] == a[0]);
        assert((a + b).subrange(1, (a + b).len() as int) =~= rest + b);
        lemma_member_join(rest, b, key);
    }
}

proof fn lemma_member(members: Seq<(Seq<char>, JsonView)>, key: Seq<char>, i: int)
    requires
        0 <= i <= members.len(),
        forall|j: int| 0 <= j < i ==> members[j].0 != key,
    ensures
        member(members, key) == member(members.subrange(i, members.len() as int), key),
    decreases i,
{
    if i == 0 {
        assert(members.subrange(0, members.len() as int) =~= members);
    } else {
        let rest = members.subrange(1, members.len() as int);
        lemma_member(rest, key, i - 1);
        assert(rest.subrange(i - 1, rest.len() as int) =~= members.subrange(
            i,
            members.len() as int,
        ));
    }
}

impl Json {
    pub fn get(&self, key: &str) -> (r: Option<&Json>)
        ensures
            match r {
                Some(v) => self.value().get(key@) == Some(v.value()),
                None => self.value().get(key@) is None,
            },
            r matches Some(v) ==> decreases_to!(self => v),
    {
        match self {
            Json::Object(members) => {
                let ghost all = self.value()->Object_0;
                let mut i: usize = 0;
                while i < members.len()
                    invariant
                        self == Json::Object(*members),
                        all == self.value()->Object_0,
                        all.len() == members@.len(),
                        i <= members@.len(),
                        forall|j: int| 0 <= j < i ==> all[j].0 != key@,
                    decreases members@.len() - i,
                {
                    assert(all[i as int] == (members@[i as int].0@, members@[i as int].1.value()));
                    if text::same(members[i].0.as_str(), key) {
                        proof {
                            lemma_member(all, key@, i as int);
                            assert(all.subrange(i as int, all.len() as int)[0] == all[i as int]);
                            assert(decreases_to!(self => members@[i as int].1));
                        }
                        return Some(&members[i].1);
                    }
                    i = i + 1;
                }
                proof {
                    lemma_member(all, key@, all.len() as int);
                }
                None
            },
            _ => None,
        }
    }

    pub fn as_str(&self) -> (r: Option<&String>)
        ensures
            match r {
                Some(t) => self.value().text() == Some(t@),
                None => self.value().text() is None,
            },
    {
        match self {
            Json::Text(t) => Some(t),
            _ => None,
        }
    }

    pub fn as_bool(&self) -> (r: Option<bool>)
        ensures
            r == self.value().truth(),
    {
        match self {
            Json::Bool(b) => Some(*b),
            _ => None,
        }
    }

    pub fn text_at(&self, key: &str) -> (r: Option<String>)
        ensures
            text::text_of(r) == self.value().text_at(key@),
    {
        match self.get(key) {
            Some(v) => match v.as_str() {
                Some(t) => Some(text::copy(t.as_str())),
                None => None,
            },
            None => None,
        }
    }

    pub fn bool_at(&self, key: &str) -> (r: Option<bool>)
        ensures
            r == self.value().truth_at(key@),
    {
        match self.get(key) {
            Some(v) => v.as_bool(),
            None => None,
        }
    }
}

/// The members of an object as views.
pub open spec fn member_views(members: Seq<(String, Json)>) -> Seq<(Seq<char>, JsonView)> {
    Seq::new(members.len(), |i: int| (members[i].0@, members[i].1.value()))
}

proof fn lemma_member_update(
    before: Seq<(Seq<char>, JsonView)>,
    after: Seq<(Seq<char>, JsonView)>,
    key: Seq<char>,
    v: JsonView,
    other: Seq<char>,
    at: int,
)
    requires
        0 <= at <= before.len(),
        forall|j: int| 0 <= j < at ==> before[j].0 != key,
        at < before.len() ==> before[at].0 == key && after == before.update(at, (key, v)),
        at == before.len() ==> after == before.push((key, v)),
    ensures
        member(after, other) == if other == key {
            Some(v)
        } else {
            member(before, other)
        },
    decreases at,
{
    if at > 0 {
        let front = before.subrange(1, before.len() as int);
        let back = after.subrange(1, after.len() as int);
        if at < before.len() {
            assert(back =~= front.update(at - 1, (key, v)));
        } else {
            assert(back =~= front.push((key, v)));
        }
        lemma_member_update(front, back, key, v, other, at - 1);
        assert(after[0] == before[0]);
    } else if before.len() > 0 {
        assert(after.subrange(1, after.len() as int) =~= before.subrange(1, before.len() as int));
    } else {
        assert(after.subrange(1, after.len() as int) =~= before);
    }
}

/// The object with that member set: in place of one of the same name, or at the end.
pub fn with_member(members: Vec<(String, Json)>, key: &str, value: Json) -> (r: Vec<
    (String, Json),
>)
    ensures
        forall|other: Seq<char>| #[trigger]
            member(member_views(r@), other) == if other == key@ {
                Some(value.value())
            } else {
                member(member_views(members@), other)
            },
{
    let mut r = members;
    let ghost before = member_views(r@);
    let mut at: usize = 0;
    while at < r.len() && !text::same(r[at].0.as_str(), key)
        invariant
            at <= r@.len(),
            before == member_views(r@),
            forall|j: int| 0 <= j < at ==> before[j].0 != key@,
        decreases r@.len() - at,
    {
        at = at + 1;
    }
    let ghost v = value.value();
    let named = (text::copy(key), value);
    if at < r.len() {
        r.set(at, named);
    } else {
        r.push(named);
    }
    let ghost after = member_views(r@);
    proof {
        if at < before.len() {
            assert(after =~= before.update(at as int, (key@, v)));
        } else {
            assert(after =~= before.push((key@, v)));
        }
        assert forall|other: Seq<char>| #[trigger] member(after, other) == if other == key@ {
            Some(v)
        } else {
            member(before, other)
        } by {
            lemma_member_update(before, after, key@, v, other, at as int);
        }
    }
    r
}

/// What serde_json reads from a text, or what it says is wrong with it.
pub uninterp spec fn parsed(text: Seq<char>) -> Result<JsonView, Seq<char>>;

#[verifier::external_type_specification]
#[verifier::external_body]
pub struct ExValue(serde_json::Value);

/// The same value in this crate's type: one arm for each kind of
/// `serde_json::Value`, a number as the text it displays as.
#[verifier::external_body]
fn of_value(value: serde_json::Value) -> Json {
    match value {
        serde_json::Value::Null => Json::Null,
        serde_json::Value::Bool(b) => Json::Bool(b),
        serde_json::Value::Number(n) => Json::Number(n.to_string()),
        serde_json::Value::String(t) => Json::Text(t),
        serde_json::Value::Array(items) => Json::Array(items.into_iter().map(of_value).collect()),
        serde_json::Value::Object(members) => Json::Object(
            members.into_iter().map(|m| (m.0, of_value(m.1))).collect(),
        ),
    }
}

/// How deep the lists and objects of a text may lie in each other for it to be
/// read in any case.
pub const DEPTH: u64 = 100;

/// A number that reads as it is written: a count, or a double.
pub open spec fn steady(n: Seq<char>) -> bool {
    (exists|k: nat| k <= u64::MAX && n == #[trigger] text::decimal(k)) || double_text(n) == Some(n)
}

/// Each name once.
pub open spec fn named_once(members: Seq<(Seq<char>, JsonView)>) -> bool {
    forall|i: int, j: int| 0 <= i < j < members.len() ==> members[i].0 != members[j].0
}

/// A name that serde_json keeps for itself: an object that begins with one may be read
/// as what its first member holds.
pub open spec fn reserved(name: Seq<char>) -> bool {
    text::starts(name, "$serde_json::private::"@)
}

/// A short name is not reserved.
pub(crate) proof fn lemma_short_name(name: Seq<char>)
    requires
        name.len() < 22,
    ensures
        !reserved(name),
{
    reveal_strlit("$serde_json::private::");
    assert("$serde_json::private::"@.len() == 22);
}

/// A value that its text holds whole: numbers that read as they are written, each
/// name of an object once, no object that begins with a reserved name, and no more than
/// so many lists and objects in each other.
pub open spec fn kept(v: JsonView, depth: nat) -> bool
    decreases v,
{
    match v {
        JsonView::Number(n) => steady(n),
        JsonView::Array(items) => depth > 0 && forall|i: int|
            0 <= i < items.len() ==> kept(#[trigger] items[i], (depth - 1) as nat),
        JsonView::Object(members) => depth > 0 && named_once(members) && (members.len() > 0
            ==> !reserved(members[0].0)) && forall|i: int|
            0 <= i < members.len() ==> kept((#[trigger] members[i]).1, (depth - 1) as nat),
        _ => true,
    }
}

/// The same value, the members of objects in whatever order.
pub open spec fn alike(a: JsonView, b: JsonView) -> bool
    decreases b,
{
    match (a, b) {
        (JsonView::Array(x), JsonView::Array(y)) => x.len() == y.len() && forall|i: int|
            0 <= i < y.len() ==> alike(x[i], #[trigger] y[i]),
        (JsonView::Object(x), JsonView::Object(y)) => {
            &&& forall|i: int| 0 <= i < x.len() ==> member(y, (#[trigger] x[i]).0) is Some
            &&& forall|i: int|
                0 <= i < y.len() ==> member(x, (#[trigger] y[i]).0) is Some && alike(
                    member(x, y[i].0)->0,
                    y[i].1,
                )
        },
        _ => a == b,
    }
}

/// `serde_json::from_str`, for any JSON value: the value, or the text of the error.
/// From the text that a value is written as it reads that value again, the members
/// of its objects in an order of its own. Nothing is said of objects that begin with a
/// name that serde_json keeps for itself.
#[verifier::external_body]
pub(crate) fn parse(text: &str) -> (r: Result<Json, String>)
    ensures
        match r {
            Ok(v) => parsed(text@) == Ok::<JsonView, Seq<char>>(v.value()),
            Err(e) => parsed(text@) == Err::<JsonView, Seq<char>>(e@),
        },
        forall|v: JsonView|
            kept(v, DEPTH as nat) && text@ == #[trigger] compact(v) ==> r is Ok && alike(
                r->Ok_0.value(),
                v,
            ),
{
    match serde_json::from_str::<serde_json::Value>(text) {
        Ok(value) => Ok(of_value(value)),
        Err(error) => Err(error.to_string()),
    }
}

proof fn lemma_member_found(members: Seq<(Seq<char>, JsonView)>, key: Seq<char>) -> (i: int)
    requires
        member(members, key) is Some,
    ensures
        0 <= i < members.len(),
        members[i].0 == key,
        member(members, key) == Some(members[i].1),
    decreases members.len(),
{
    if members[0].0 == key {
        0
    } else {
        let rest = members.subrange(1, members.len() as int);
        let i = lemma_member_found(rest, key);
        i + 1
    }
}

/// Values that are alike have alike members.
pub(crate) proof fn lemma_alike_get(a: JsonView, b: JsonView, key: Seq<char>)
    requires
        alike(a, b),
    ensures
        match (a.get(key), b.get(key)) {
            (Some(x), Some(y)) => alike(x, y),
            (None, None) => true,
            _ => false,
        },
{
    if let (JsonView::Object(x), JsonView::Object(y)) = (a, b) {
        if member(y, key) is Some {
            let i = lemma_member_found(y, key);
            assert(y[i].0 == key);
        } else if member(x, key) is Some {
            let i = lemma_member_found(x, key);
            assert(x[i].0 == key);
        }
    }
}

/// The text that serde_json writes for a value.
pub uninterp spec fn written(value: JsonView) -> Seq<char>;

/// The same value as a `serde_json::Value`: one arm for each kind.
#[verifier::external_body]
fn to_value(value: &Json) -> serde_json::Value {
    match value {
        Json::Null => serde_json::Value::Null,
        Json::Bool(b) => serde_json::Value::Bool(*b),
        Json::Number(n) => n.parse().map_or(serde_json::Value::Null, serde_json::Value::Number),
        Json::Text(t) => serde_json::Value::String(t.clone()),
        Json::Array(items) => serde_json::Value::Array(items.iter().map(to_value).collect()),
        Json::Object(members) => serde_json::Value::Object(
            members.iter().map(|m| (m.0.clone(), to_value(&m.1))).collect(),
        ),
    }
}

/// The text of a value: how `serde_json::Value` displays it.
#[verifier::external_body]
pub(crate) fn write(value: &Json) -> (r: String)
    ensures
        r@ == written(value.value()),
{
    to_value(value).to_string()
}

/// The object with these members.
pub open spec fn object(members: Seq<(Seq<char>, JsonView)>) -> JsonView {
    JsonView::Object(members)
}

pub fn text_value(t: &str) -> (r: Json)
    ensures
        r.value() == JsonView::Text(t@),
{
    Json::Text(text::copy(t))
}

pub fn number_value(n: u64) -> (r: Json)
    ensures
        r.value() == JsonView::Number(text::decimal(n as nat)),
{
    Json::Number(text::number(n))
}

/// Appends a member to an object.
pub fn push_member(members: &mut Vec<(String, Json)>, key: &str, value: Json)
    ensures
        member_views(final(members)@) == member_views(old(members)@).push((key@, value.value())),
{
    let ghost before = member_views(members@);
    let ghost v = value.value();
    members.push((text::copy(key), value));
    assert(member_views(members@) =~= before.push((key@, v)));
}

pub fn object_value(members: Vec<(String, Json)>) -> (r: Json)
    ensures
        r.value() == object(member_views(members@)),
{
    let r = Json::Object(members);
    assert(r.value()->Object_0 =~= member_views(members@));
    r
}

/// The string literal that serde_json writes for a text.
pub uninterp spec fn quoted(text: Seq<char>) -> Seq<char>;

/// `serde_json::Value::from` of a text, as it displays: a string literal of JSON.
#[verifier::external_body]
fn quote(text: &str) -> (r: String)
    ensures
        r@ == quoted(text@),
{
    serde_json::Value::from(text).to_string()
}

/// A value in one line, the members of objects in their order.
pub open spec fn compact(v: JsonView) -> Seq<char>
    decreases v, 0nat,
{
    match v {
        JsonView::Null => "null"@,
        JsonView::Bool(b) => if b {
            "true"@
        } else {
            "false"@
        },
        JsonView::Number(n) => n,
        JsonView::Text(t) => quoted(t),
        JsonView::Array(items) => "["@ + compact_items(items, items.len()) + "]"@,
        JsonView::Object(members) => "{"@ + compact_members(members, members.len()) + "}"@,
    }
}

/// The first items, with commas between them.
pub open spec fn compact_items(items: Seq<JsonView>, n: nat) -> Seq<char>
    decreases items, n,
{
    if n == 0 || n > items.len() {
        ""@
    } else if n == 1 {
        compact(items[0])
    } else {
        compact_items(items, (n - 1) as nat) + ","@ + compact(items[n - 1])
    }
}

/// The first members, with commas between them.
pub open spec fn compact_members(members: Seq<(Seq<char>, JsonView)>, n: nat) -> Seq<char>
    decreases members, n,
{
    if n == 0 || n > members.len() {
        ""@
    } else if n == 1 {
        quoted(members[0].0) + ":"@ + compact(members[0].1)
    } else {
        compact_members(members, (n - 1) as nat) + ","@ + (quoted(members[n - 1].0) + ":"@
            + compact(members[n - 1].1))
    }
}

/// Writes a value in one line.
pub fn compact_text(v: &Json) -> (r: String)
    ensures
        r@ == compact(v.value()),
    decreases v,
{
    match v {
        Json::Null => text::copy("null"),
        Json::Bool(b) => {
            if *b {
                text::copy("true")
            } else {
                text::copy("false")
            }
        },
        Json::Number(n) => text::copy(n.as_str()),
        Json::Text(t) => quote(t.as_str()),
        Json::Array(items) => {
            let ghost all = v.value()->Array_0;
            let n: usize = items.len();
            let mut inner = text::copy("");
            let mut i: usize = 0;
            while i < n
                invariant
                    n == items.len(),
                    v == Json::Array(*items),
                    all == v.value()->Array_0,
                    all.len() == n,
                    i <= n,
                    inner@ == compact_items(all, i as nat),
                decreases n - i,
            {
                assert(all[i as int] == items@[i as int].value());
                assert(decreases_to!(v => items@[i as int]));
                let one = compact_text(&items[i]);
                if i == 0 {
                    inner = one;
                } else {
                    inner = text::cat3(inner.as_str(), ",", one.as_str());
                }
                i = i + 1;
            }
            text::cat3("[", inner.as_str(), "]")
        },
        Json::Object(members) => {
            let ghost all = v.value()->Object_0;
            let n: usize = members.len();
            let mut inner = text::copy("");
            let mut i: usize = 0;
            while i < n
                invariant
                    n == members.len(),
                    v == Json::Object(*members),
                    all == v.value()->Object_0,
                    all.len() == n,
                    i <= n,
                    inner@ == compact_members(all, i as nat),
                decreases n - i,
            {
                assert(all[i as int] == (members@[i as int].0@, members@[i as int].1.value()));
                assert(decreases_to!(v => members@[i as int].1));
                let value = compact_text(&members[i].1);
                let one = text::cat3(
                    quote(members[i].0.as_str()).as_str(),
                    ":",
                    value.as_str(),
                );
                if i == 0 {
                    inner = one;
                } else {
                    inner = text::cat3(inner.as_str(), ",", one.as_str());
                }
                i = i + 1;
            }
            text::cat3("{", inner.as_str(), "}")
        },
    }
}

/// The text that serde_json writes for the double that it reads from a number.
pub uninterp spec fn double_text(number: Seq<char>) -> Option<Seq<char>>;

/// `serde_json::from_str` of a double, displayed as a `serde_json::Number`.
#[verifier::external_body]
pub(crate) fn show_double(number: &str) -> (r: Option<String>)
    ensures
        text::text_of(r) == double_text(number@),
{
    let value = serde_json::from_str(number).ok()?;
    serde_json::Number::from_f64(value).map(|n| n.to_string())
}

impl Json {
    /// The number as it is written, where the value is one.
    pub fn as_number(&self) -> (r: Option<&String>)
        ensures
            match r {
                Some(n) => self.value() == JsonView::Number(n@),
                None => !(self.value() is Number),
            },
    {
        match self {
            Json::Number(n) => Some(n),
            _ => None,
        }
    }
}

/// An object's member of a name is the first one with it; where none has it, or where the
/// value is no object, there is none.
pub proof fn law_first_member_of_a_name(members: Seq<(Seq<char>, JsonView)>, key: Seq<char>)
    ensures
        forall|i: int|
            0 <= i < members.len() && (#[trigger] members[i]).0 == key && (forall|j: int|
                0 <= j < i ==> (#[trigger] members[j]).0 != key) ==> JsonView::Object(members).get(
                key,
            ) == Some(members[i].1),
        (forall|j: int| 0 <= j < members.len() ==> (#[trigger] members[j]).0 != key)
            ==> JsonView::Object(members).get(key) is None,
{
    assert forall|i: int|
        0 <= i < members.len() && (#[trigger] members[i]).0 == key && (forall|j: int|
            0 <= j < i ==> (#[trigger] members[j]).0 != key) implies JsonView::Object(members).get(
        key,
    ) == Some(members[i].1) by {
        lemma_member(members, key, i);
        assert(members.subrange(i, members.len() as int)[0] == members[i]);
    }
    if forall|j: int| 0 <= j < members.len() ==> (#[trigger] members[j]).0 != key {
        lemma_member(members, key, members.len() as int);
    }
}

/// A member counts as a text where it is a string, and as a truth value where it is one;
/// nothing else is taken for either.
pub proof fn law_members_are_read_by_type(value: JsonView, key: Seq<char>)
    ensures
        match value.get(key) {
            Some(JsonView::Text(t)) => value.text_at(key) == Some(t),
            _ => value.text_at(key) is None,
        },
        match value.get(key) {
            Some(JsonView::Bool(b)) => value.truth_at(key) == Some(b),
            _ => value.truth_at(key) is None,
        },
        !(value is Object) ==> value.get(key) is None,
{
}

} // verus!
