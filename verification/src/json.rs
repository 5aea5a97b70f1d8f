//! JSON documents as the library reads them.
//!
//! `JsonValue` holds a document as plain values. Text becomes a `JsonValue`
//! through `parse_json`, which leaves the grammar to `serde_json`; everything
//! that reads a document is written over `JsonValue` and its view `Json`.

use vstd::prelude::*;
use crate::table::{lemma_position_is, lookup};
use crate::text::str_equal;

verus! {

/// A JSON document as a mathematical value. A number is kept as its decimal
/// text; the members of an object are kept in order.
pub enum Json {
    Null,
    Bool(bool),
    Number(Seq<char>),
    Text(Seq<char>),
    List(Seq<Json>),
    Object(Seq<(Seq<char>, Json)>),
}

impl Json {
    /// The member `name` of an object; `None` for a missing member and for
    /// anything that is not an object.
    pub open spec fn member(self, name: Seq<char>) -> Option<Json> {
        match self {
            Json::Object(members) => lookup(members, name),
            _ => None,
        }
    }

    /// The characters of a text; `None` for anything else.
    pub open spec fn text(self) -> Option<Seq<char>> {
        match self {
            Json::Text(t) => Some(t),
            _ => None,
        }
    }

    /// The text of member `name`; `None` when the member is missing or is not
    /// a text.
    pub open spec fn text_member(self, name: Seq<char>) -> Option<Seq<char>> {
        match self.member(name) {
            Some(m) => m.text(),
            None => None,
        }
    }

    /// The items of a list; `None` for anything else.
    pub open spec fn items(self) -> Option<Seq<Json>> {
        match self {
            Json::List(items) => Some(items),
            _ => None,
        }
    }

    /// The texts of a list that holds `width` texts and nothing else.
    pub open spec fn text_row(self, width: nat) -> Option<Seq<Seq<char>>> {
        match self {
            Json::List(items) => if items.len() == width && forall|i: int|
                0 <= i < items.len() ==> (#[trigger] items[i]).text() is Some {
                Some(Seq::new(items.len(), |i: int| items[i].text().unwrap()))
            } else {
                None
            },
            _ => None,
        }
    }

    /// The rows of a list whose items are all rows of `width` texts.
    pub open spec fn text_rows(self, width: nat) -> Option<Seq<Seq<Seq<char>>>> {
        match self {
            Json::List(items) => if forall|i: int|
                0 <= i < items.len() ==> (#[trigger] items[i]).text_row(width) is Some {
                Some(Seq::new(items.len(), |i: int| items[i].text_row(width).unwrap()))
            } else {
                None
            },
            _ => None,
        }
    }

    /// The members of an object whose members are all texts, in order.
    pub open spec fn text_entries(self) -> Option<Seq<(Seq<char>, Seq<char>)>> {
        match self {
            Json::Object(members) => if forall|i: int|
                0 <= i < members.len() ==> (#[trigger] members[i]).1.text() is Some {
                Some(Seq::new(members.len(), |i: int| (members[i].0, members[i].1.text().unwrap())))
            } else {
                None
            },
            _ => None,
        }
    }

    /// The decimal text of a number; `None` for anything else.
    pub open spec fn number(self) -> Option<Seq<char>> {
        match self {
            Json::Number(n) => Some(n),
            _ => None,
        }
    }

    /// The two numbers of a list that holds two numbers and nothing else.
    pub open spec fn number_pair(self) -> Option<(Seq<char>, Seq<char>)> {
        match self {
            Json::List(items) => if items.len() == 2 {
                match (items[0].number(), items[1].number()) {
                    (Some(a), Some(b)) => Some((a, b)),
                    _ => None,
                }
            } else {
                None
            },
            _ => None,
        }
    }

    /// The pairs of a list whose items are all pairs of numbers.
    pub open spec fn number_pairs(self) -> Option<Seq<(Seq<char>, Seq<char>)>> {
        match self {
            Json::List(items) => if forall|i: int|
                0 <= i < items.len() ==> (#[trigger] items[i]).number_pair() is Some {
                Some(Seq::new(items.len(), |i: int| items[i].number_pair().unwrap()))
            } else {
                None
            },
            _ => None,
        }
    }

    /// The members of an object whose members are all lists of pairs of
    /// numbers, in order.
    pub open spec fn number_pair_entries(self) -> Option<
        Seq<(Seq<char>, Seq<(Seq<char>, Seq<char>)>)>,
    > {
        match self {
            Json::Object(members) => if forall|i: int|
                0 <= i < members.len() ==> (#[trigger] members[i]).1.number_pairs() is Some {
                Some(
                    Seq::new(
                        members.len(),
                        |i: int| (members[i].0, members[i].1.number_pairs().unwrap()),
                    ),
                )
            } else {
                None
            },
            _ => None,
        }
    }

    /// The members of an object; `None` for anything else.
    pub open spec fn members(self) -> Option<Seq<(Seq<char>, Json)>> {
        match self {
            Json::Object(members) => Some(members),
            _ => None,
        }
    }

    /// The texts of a list that holds texts and nothing else.
    pub open spec fn texts(self) -> Option<Seq<Seq<char>>> {
        match self {
            Json::List(items) => self.text_row(items.len()),
            _ => None,
        }
    }

    /// The four numbers of a list that holds four numbers and nothing else.
    pub open spec fn number_quad(self) -> Option<(Seq<char>, Seq<char>, Seq<char>, Seq<char>)> {
        match self {
            Json::List(items) => if items.len() == 4 {
                match (
                    items[0].number(),
                    items[1].number(),
                    items[2].number(),
                    items[3].number(),
                ) {
                    (Some(a), Some(b), Some(c), Some(d)) => Some((a, b, c, d)),
                    _ => None,
                }
            } else {
                None
            },
            _ => None,
        }
    }

    /// What an optional member `name` holds: nothing where the member is
    /// missing or null.
    pub open spec fn optional_member(self, name: Seq<char>) -> Option<Json> {
        match self.member(name) {
            None => None,
            Some(Json::Null) => None,
            Some(value) => Some(value),
        }
    }

    /// What an optional truth value `name` holds: `Some(None)` where the
    /// member is missing or null, `Some(Some(b))` for a truth value `b`, and
    /// `None` for anything else.
    pub open spec fn optional_bool_member(self, name: Seq<char>) -> Option<Option<bool>> {
        match self.member(name) {
            None => Some(None),
            Some(Json::Null) => Some(None),
            Some(Json::Bool(b)) => Some(Some(b)),
            Some(_) => None,
        }
    }

    /// What an optional number `name` holds: `Some(None)` where the member is
    /// missing or null, `Some(Some(n))` for a number with the decimal text
    /// `n`, and `None` for anything else.
    pub open spec fn optional_number_member(self, name: Seq<char>) -> Option<Option<Seq<char>>> {
        match self.member(name) {
            None => Some(None),
            Some(Json::Null) => Some(None),
            Some(Json::Number(n)) => Some(Some(n)),
            Some(_) => None,
        }
    }

    /// What an optional text member `name` holds: `Some(None)` where the
    /// member is missing or null, `Some(Some(t))` for a text `t`, and `None`
    /// for anything else.
    pub open spec fn optional_text_member(self, name: Seq<char>) -> Option<Option<Seq<char>>> {
        match self.member(name) {
            None => Some(None),
            Some(Json::Null) => Some(None),
            Some(Json::Text(t)) => Some(Some(t)),
            Some(_) => None,
        }
    }
}

/// A JSON document.
#[derive(Debug, PartialEq)]
pub enum JsonValue {
    Null,
    Bool(bool),
    /// A number, as decimal text.
    Number(String),
    Text(String),
    List(Vec<JsonValue>),
    /// The members of an object, as `(name, value)` pairs.
    Object(Vec<(String, JsonValue)>),
}

/// The document that a `JsonValue` holds.
pub open spec fn document_of(v: JsonValue) -> Json
    decreases v,
{
    match v {
        JsonValue::Null => Json::Null,
        JsonValue::Bool(b) => Json::Bool(b),
        JsonValue::Number(n) => Json::Number(n@),
        JsonValue::Text(t) => Json::Text(t@),
        JsonValue::List(items) => Json::List(
            Seq::new(
                items@.len(),
                |i: int|
                    if 0 <= i < items@.len() {
                        document_of(items@[i])
                    } else {
                        Json::Null
                    },
            ),
        ),
        JsonValue::Object(members) => Json::Object(
            Seq::new(
                members@.len(),
                |i: int|
                    if 0 <= i < members@.len() {
                        (members@[i].0@, document_of(members@[i].1))
                    } else {
                        (Seq::empty(), Json::Null)
                    },
            ),
        ),
    }
}

impl View for JsonValue {
    type V = Json;

    open spec fn view(&self) -> Json {
        document_of(*self)
    }
}

impl DeepView for JsonValue {
    type V = Json;

    open spec fn deep_view(&self) -> Json {
        self@
    }
}

/// The view of an object holds the views of its members, in order.
pub proof fn lemma_object_view(v: JsonValue)
    requires
        v is Object,
    ensures
        v@ is Object,
        v@->Object_0.len() == v->Object_0@.len(),
        forall|j: int|
            0 <= j < v->Object_0@.len() ==> #[trigger] v@->Object_0[j] == (
                v->Object_0@[j].0@,
                v->Object_0@[j].1@,
            ),
{
    reveal_with_fuel(document_of, 2);
}

/// The view of a list holds the views of its items, in order.
pub proof fn lemma_list_view(v: JsonValue)
    requires
        v is List,
    ensures
        v@ is List,
        v@->List_0.len() == v->List_0@.len(),
        forall|j: int| 0 <= j < v->List_0@.len() ==> #[trigger] v@->List_0[j] == v->List_0@[j]@,
{
    reveal_with_fuel(document_of, 2);
}

impl JsonValue {
    /// The member `name` of an object.
    pub fn member(&self, name: &str) -> (r: Option<&JsonValue>)
        ensures
            match r {
                Some(m) => self@.member(name@) == Some(m@),
                None => self@.member(name@) is None,
            },
    {
        match self {
            JsonValue::Object(members) => {
                let ghost entries = self@->Object_0;
                let n = members.len();
                proof {
                    lemma_object_view(*self);
                }
                let mut i: usize = 0;
                while i < n
                    invariant
                        n == members@.len(),
                        i <= n,
                        self@ == Json::Object(entries),
                        entries.len() == n,
                        forall|j: int|
                            0 <= j < n ==> #[trigger] entries[j] == (
                                members@[j].0@,
                                members@[j].1@,
                            ),
                        forall|j: int| 0 <= j < i ==> (#[trigger] entries[j]).0 != name@,
                    decreases n - i,
                {
                    if str_equal(members[i].0.as_str(), name) {
                        proof {
                            lemma_position_is(entries, name@, i as int);
                        }
                        return Some(&members[i].1);
                    }
                    i += 1;
                }
                proof {
                    lemma_position_is(entries, name@, n as int);
                }
                None
            },
            _ => None,
        }
    }

    /// The characters of a text.
    pub fn as_text(&self) -> (r: Option<&String>)
        ensures
            match r {
                Some(t) => self@.text() == Some(t@),
                None => self@.text() is None,
            },
    {
        match self {
            JsonValue::Text(t) => Some(t),
            _ => None,
        }
    }

    /// The items of a list.
    pub fn as_list(&self) -> (r: Option<&Vec<JsonValue>>)
        ensures
            match r {
                Some(items) => self@.items() == Some(items.deep_view()),
                None => self@.items() is None,
            },
    {
        match self {
            JsonValue::List(items) => {
                proof {
                    lemma_list_view(*self);
                    assert(self@->List_0 =~= items.deep_view());
                }
                Some(items)
            },
            _ => None,
        }
    }

    /// The texts of a list that holds `width` texts and nothing else.
    pub fn text_row(&self, width: usize) -> (r: Option<Vec<String>>)
        ensures
            r.deep_view() == self@.text_row(width as nat),
    {
        match self.as_list() {
            None => None,
            Some(items) => {
                let n = items.len();
                if n != width {
                    return None;
                }
                let ghost list = items.deep_view();
                let mut row: Vec<String> = Vec::new();
                let mut i: usize = 0;
                while i < n
                    invariant
                        n == items@.len(),
                        n == width,
                        list == items.deep_view(),
                        self@ == Json::List(list),
                        i <= n,
                        row@.len() == i,
                        forall|k: int| 0 <= k < i ==> list[k].text() == Some(#[trigger] row@[k]@),
                    decreases n - i,
                {
                    assert(list[i as int] == items@[i as int]@);
                    match items[i].as_text() {
                        Some(t) => {
                            row.push(t.clone());
                        },
                        None => {
                            assert(list[i as int].text() is None);
                            return None;
                        },
                    }
                    i += 1;
                }
                proof {
                    assert forall|k: int| 0 <= k < list.len() implies (#[trigger] list[k]).text()
                        is Some by {
                        assert(list[k].text() == Some(row@[k]@));
                    }
                    assert(row.deep_view() =~= Seq::new(
                        list.len(),
                        |k: int| list[k].text().unwrap(),
                    )) by {
                        assert forall|k: int| 0 <= k < list.len() implies #[trigger] row.deep_view()[k]
                            == list[k].text().unwrap() by {
                            assert(list[k].text() == Some(row@[k]@));
                        }
                    }
                }
                Some(row)
            },
        }
    }

    /// The rows of a list whose items are all rows of `width` texts.
    pub fn text_rows(&self, width: usize) -> (r: Option<Vec<Vec<String>>>)
        ensures
            r.deep_view() == self@.text_rows(width as nat),
    {
        match self.as_list() {
            None => None,
            Some(items) => {
                let n = items.len();
                let ghost list = items.deep_view();
                let mut rows: Vec<Vec<String>> = Vec::new();
                let mut i: usize = 0;
                while i < n
                    invariant
                        n == items@.len(),
                        list == items.deep_view(),
                        self@ == Json::List(list),
                        i <= n,
                        rows@.len() == i,
                        forall|k: int|
                            0 <= k < i ==> list[k].text_row(width as nat) == Some(
                                #[trigger] rows@[k].deep_view(),
                            ),
                    decreases n - i,
                {
                    assert(list[i as int] == items@[i as int]@);
                    match items[i].text_row(width) {
                        Some(row) => {
                            rows.push(row);
                        },
                        None => {
                            assert(list[i as int].text_row(width as nat) is None);
                            return None;
                        },
                    }
                    i += 1;
                }
                proof {
                    assert forall|k: int| 0 <= k < list.len() implies (#[trigger] list[k]).text_row(
                        width as nat,
                    ) is Some by {
                        assert(list[k].text_row(width as nat) == Some(rows@[k].deep_view()));
                    }
                    assert(rows.deep_view() =~= Seq::new(
                        list.len(),
                        |k: int| list[k].text_row(width as nat).unwrap(),
                    )) by {
                        assert forall|k: int| 0 <= k < list.len() implies #[trigger] rows.deep_view()[k]
                            == list[k].text_row(width as nat).unwrap() by {
                            assert(list[k].text_row(width as nat) == Some(rows@[k].deep_view()));
                        }
                    }
                }
                Some(rows)
            },
        }
    }

    /// The members of an object whose members are all texts, in order.
    pub fn text_entries(&self) -> (r: Option<Vec<(String, String)>>)
        ensures
            r.deep_view() == self@.text_entries(),
    {
        match self {
            JsonValue::Object(members) => {
                let ghost entries = self@->Object_0;
                proof {
                    lemma_object_view(*self);
                }
                let n = members.len();
                let mut out: Vec<(String, String)> = Vec::new();
                let mut i: usize = 0;
                while i < n
                    invariant
                        n == members@.len(),
                        self@ == Json::Object(entries),
                        entries.len() == n,
                        forall|j: int|
                            0 <= j < n ==> #[trigger] entries[j] == (
                                members@[j].0@,
                                members@[j].1@,
                            ),
                        i <= n,
                        out@.len() == i,
                        forall|k: int|
                            0 <= k < i ==> entries[k].1.text() == Some((#[trigger] out@[k]).1@)
                                && entries[k].0 == out@[k].0@,
                    decreases n - i,
                {
                    match members[i].1.as_text() {
                        Some(t) => {
                            out.push((members[i].0.clone(), t.clone()));
                        },
                        None => {
                            assert(entries[i as int].1.text() is None);
                            return None;
                        },
                    }
                    i += 1;
                }
                proof {
                    assert forall|k: int| 0 <= k < entries.len() implies (#[trigger] entries[k]).1.text()
                        is Some by {
                        assert(entries[k].1.text() == Some(out@[k].1@));
                    }
                    assert(out.deep_view() =~= Seq::new(
                        entries.len(),
                        |k: int| (entries[k].0, entries[k].1.text().unwrap()),
                    )) by {
                        assert forall|k: int| 0 <= k < entries.len() implies #[trigger] out.deep_view()[k]
                            == (entries[k].0, entries[k].1.text().unwrap()) by {
                            assert(entries[k].1.text() == Some(out@[k].1@));
                        }
                    }
                }
                Some(out)
            },
            _ => None,
        }
    }

    /// The decimal text of a number.
    pub fn as_number(&self) -> (r: Option<&String>)
        ensures
            match r {
                Some(n) => self@.number() == Some(n@),
                None => self@.number() is None,
            },
    {
        match self {
            JsonValue::Number(n) => Some(n),
            _ => None,
        }
    }

    /// The two numbers of a list that holds two numbers and nothing else.
    pub fn number_pair(&self) -> (r: Option<(String, String)>)
        ensures
            r.deep_view() == self@.number_pair(),
    {
        match self.as_list() {
            None => None,
            Some(items) => {
                if items.len() != 2 {
                    return None;
                }
                assert(items.deep_view()[0] == items@[0]@);
                assert(items.deep_view()[1] == items@[1]@);
                match (items[0].as_number(), items[1].as_number()) {
                    (Some(a), Some(b)) => Some((a.clone(), b.clone())),
                    _ => None,
                }
            },
        }
    }

    /// The pairs of a list whose items are all pairs of numbers.
    pub fn number_pairs(&self) -> (r: Option<Vec<(String, String)>>)
        ensures
            r.deep_view() == self@.number_pairs(),
    {
        match self.as_list() {
            None => None,
            Some(items) => {
                let n = items.len();
                let ghost list = items.deep_view();
                let mut pairs: Vec<(String, String)> = Vec::new();
                let mut i: usize = 0;
                while i < n
                    invariant
                        n == items@.len(),
                        list == items.deep_view(),
                        self@ == Json::List(list),
                        i <= n,
                        pairs@.len() == i,
                        forall|k: int|
                            0 <= k < i ==> list[k].number_pair() == Some(
                                #[trigger] pairs@[k].deep_view(),
                            ),
                    decreases n - i,
                {
                    assert(list[i as int] == items@[i as int]@);
                    match items[i].number_pair() {
                        Some(pair) => {
                            pairs.push(pair);
                        },
                        None => {
                            assert(list[i as int].number_pair() is None);
                            return None;
                        },
                    }
                    i += 1;
                }
                proof {
                    assert forall|k: int| 0 <= k < list.len() implies (
                    #[trigger] list[k]).number_pair() is Some by {
                        assert(list[k].number_pair() == Some(pairs@[k].deep_view()));
                    }
                    assert(pairs.deep_view() =~= Seq::new(
                        list.len(),
                        |k: int| list[k].number_pair().unwrap(),
                    )) by {
                        assert forall|k: int| 0 <= k < list.len() implies #[trigger] pairs.deep_view()[k]
                            == list[k].number_pair().unwrap() by {
                            assert(list[k].number_pair() == Some(pairs@[k].deep_view()));
                        }
                    }
                }
                Some(pairs)
            },
        }
    }

    /// The members of an object whose members are all lists of pairs of
    /// numbers, in order.
    pub fn number_pair_entries(&self) -> (r: Option<Vec<(String, Vec<(String, String)>)>>)
        ensures
            r.deep_view() == self@.number_pair_entries(),
    {
        match self {
            JsonValue::Object(members) => {
                let ghost entries = self@->Object_0;
                proof {
                    lemma_object_view(*self);
                }
                let n = members.len();
                let mut out: Vec<(String, Vec<(String, String)>)> = Vec::new();
                let mut i: usize = 0;
                while i < n
                    invariant
                        n == members@.len(),
                        self@ == Json::Object(entries),
                        entries.len() == n,
                        forall|j: int|
                            0 <= j < n ==> #[trigger] entries[j] == (
                                members@[j].0@,
                                members@[j].1@,
                            ),
                        i <= n,
                        out@.len() == i,
                        forall|k: int|
                            0 <= k < i ==> entries[k].1.number_pairs() == Some(
                                (#[trigger] out@[k]).1.deep_view(),
                            ) && entries[k].0 == out@[k].0@,
                    decreases n - i,
                {
                    match members[i].1.number_pairs() {
                        Some(pairs) => {
                            out.push((members[i].0.clone(), pairs));
                        },
                        None => {
                            assert(entries[i as int].1.number_pairs() is None);
                            return None;
                        },
                    }
                    i += 1;
                }
                proof {
                    assert forall|k: int| 0 <= k < entries.len() implies (
                    #[trigger] entries[k]).1.number_pairs() is Some by {
                        assert(entries[k].1.number_pairs() == Some(out@[k].1.deep_view()));
                    }
                    assert(out.deep_view() =~= Seq::new(
                        entries.len(),
                        |k: int| (entries[k].0, entries[k].1.number_pairs().unwrap()),
                    )) by {
                        assert forall|k: int| 0 <= k < entries.len() implies #[trigger] out.deep_view()[k]
                            == (entries[k].0, entries[k].1.number_pairs().unwrap()) by {
                            assert(entries[k].1.number_pairs() == Some(out@[k].1.deep_view()));
                        }
                    }
                }
                Some(out)
            },
            _ => None,
        }
    }

    /// The members of an object.
    pub fn as_object(&self) -> (r: Option<&Vec<(String, JsonValue)>>)
        ensures
            match r {
                Some(members) => self@.members() == Some(members.deep_view()),
                None => self@.members() is None,
            },
    {
        match self {
            JsonValue::Object(members) => {
                proof {
                    lemma_object_view(*self);
                    assert(self@->Object_0 =~= members.deep_view());
                }
                Some(members)
            },
            _ => None,
        }
    }

    /// The texts of a list that holds texts and nothing else.
    pub fn texts(&self) -> (r: Option<Vec<String>>)
        ensures
            r.deep_view() == self@.texts(),
    {
        match self.as_list() {
            Some(items) => self.text_row(items.len()),
            None => None,
        }
    }

    /// The four numbers of a list that holds four numbers and nothing else.
    pub fn number_quad(&self) -> (r: Option<(String, String, String, String)>)
        ensures
            r.deep_view() == self@.number_quad(),
    {
        match self.as_list() {
            None => None,
            Some(items) => {
                if items.len() != 4 {
                    return None;
                }
                assert(items.deep_view()[0] == items@[0]@);
                assert(items.deep_view()[1] == items@[1]@);
                assert(items.deep_view()[2] == items@[2]@);
                assert(items.deep_view()[3] == items@[3]@);
                match (
                    items[0].as_number(),
                    items[1].as_number(),
                    items[2].as_number(),
                    items[3].as_number(),
                ) {
                    (Some(a), Some(b), Some(c), Some(d)) => Some(
                        (a.clone(), b.clone(), c.clone(), d.clone()),
                    ),
                    _ => None,
                }
            },
        }
    }

    /// What an optional member `name` holds.
    pub fn optional_member(&self, name: &str) -> (r: Option<&JsonValue>)
        ensures
            r.deep_view() == self@.optional_member(name@),
    {
        match self.member(name) {
            None => None,
            Some(JsonValue::Null) => None,
            Some(value) => Some(value),
        }
    }

    /// What an optional truth value `name` holds.
    pub fn optional_bool_member(&self, name: &str) -> (r: Option<Option<bool>>)
        ensures
            r == self@.optional_bool_member(name@),
    {
        match self.member(name) {
            None => Some(None),
            Some(JsonValue::Null) => Some(None),
            Some(JsonValue::Bool(b)) => Some(Some(*b)),
            Some(_) => None,
        }
    }

    /// What an optional number `name` holds.
    pub fn optional_number_member(&self, name: &str) -> (r: Option<Option<String>>)
        ensures
            r.deep_view() == self@.optional_number_member(name@),
    {
        match self.member(name) {
            None => Some(None),
            Some(JsonValue::Null) => Some(None),
            Some(JsonValue::Number(n)) => Some(Some(n.clone())),
            Some(_) => None,
        }
    }

    /// A copy of the document.
    pub fn copy(&self) -> (r: JsonValue)
        ensures
            r@ == self@,
        decreases self,
    {
        match self {
            JsonValue::Null => JsonValue::Null,
            JsonValue::Bool(b) => JsonValue::Bool(*b),
            JsonValue::Number(n) => JsonValue::Number(n.clone()),
            JsonValue::Text(t) => JsonValue::Text(t.clone()),
            JsonValue::List(items) => {
                let n = items.len();
                let mut copies: Vec<JsonValue> = Vec::new();
                let mut i: usize = 0;
                while i < n
                    invariant
                        n == items@.len(),
                        *self == JsonValue::List(*items),
                        i <= n,
                        copies@.len() == i,
                        forall|k: int| 0 <= k < i ==> (#[trigger] copies@[k])@ == items@[k]@,
                    decreases n - i,
                {
                    proof {
                        assert(decreases_to!(*self => self->List_0));
                        assert(decreases_to!(self->List_0 => self->List_0@));
                        assert(decreases_to!(self->List_0@ => self->List_0@[i as int]));
                    }
                    let copy = items[i].copy();
                    copies.push(copy);
                    i += 1;
                }
                let r = JsonValue::List(copies);
                proof {
                    lemma_list_view(r);
                    lemma_list_view(*self);
                    assert(r@->List_0 =~= self@->List_0);
                }
                r
            },
            JsonValue::Object(members) => {
                let n = members.len();
                let mut copies: Vec<(String, JsonValue)> = Vec::new();
                let mut i: usize = 0;
                while i < n
                    invariant
                        n == members@.len(),
                        *self == JsonValue::Object(*members),
                        i <= n,
                        copies@.len() == i,
                        forall|k: int|
                            0 <= k < i ==> (#[trigger] copies@[k]).0@ == members@[k].0@
                                && copies@[k].1@ == members@[k].1@,
                    decreases n - i,
                {
                    proof {
                        assert(decreases_to!(*self => self->Object_0));
                        assert(decreases_to!(self->Object_0 => self->Object_0@));
                        assert(decreases_to!(self->Object_0@ => self->Object_0@[i as int]));
                        assert(decreases_to!(self->Object_0@[i as int] => self->Object_0@[i as int].1));
                    }
                    let copy = members[i].1.copy();
                    copies.push((members[i].0.clone(), copy));
                    i += 1;
                }
                let r = JsonValue::Object(copies);
                proof {
                    lemma_object_view(r);
                    lemma_object_view(*self);
                    assert(r@->Object_0 =~= self@->Object_0);
                }
                r
            },
        }
    }

    /// What an optional text member `name` holds.
    pub fn optional_text_member(&self, name: &str) -> (r: Option<Option<String>>)
        ensures
            r.deep_view() == self@.optional_text_member(name@),
    {
        match self.member(name) {
            None => Some(None),
            Some(JsonValue::Null) => Some(None),
            Some(JsonValue::Text(t)) => Some(Some(t.clone())),
            Some(_) => None,
        }
    }

    /// The text of member `name`.
    pub fn text_member(&self, name: &str) -> (r: Option<&String>)
        ensures
            match r {
                Some(t) => self@.text_member(name@) == Some(t@),
                None => self@.text_member(name@) is None,
            },
    {
        match self.member(name) {
            Some(m) => m.as_text(),
            None => None,
        }
    }
}

/// `serde_json::Value`, a document as `serde_json` holds it. Nothing inside
/// it is seen here.
#[verifier::external_type_specification]
#[verifier::external_body]
pub struct ExValue(serde_json::Value);

/// What a `serde_json::Value` holds.
pub uninterp spec fn json_content(v: serde_json::Value) -> Json;

/// The document that `serde_json` reads from a text, or `None` where it
/// rejects the text.
pub uninterp spec fn json_document(text: Seq<char>) -> Option<Json>;

/// `serde_json::from_str` at type `serde_json::Value`: the value read from
/// `text` holds the document of `text`, and none is returned exactly where
/// `serde_json` rejects `text`.
#[verifier::external_body]
fn read_document(text: &str) -> (r: Option<serde_json::Value>)
    ensures
        match r {
            Some(v) => json_document(text@) == Some(json_content(v)),
            None => json_document(text@) is None,
        },
{
    serde_json::from_str(text).ok()
}

/// Copies a `serde_json::Value` into a `JsonValue`, variant by variant: the
/// members of an object in the order in which `serde_json` walks them, a
/// number as the text that `serde_json` prints for it.
#[verifier::external_body]
fn lift(v: &serde_json::Value) -> (r: JsonValue)
    ensures
        r@ == json_content(*v),
{
    match v {
        serde_json::Value::Null => JsonValue::Null,
        serde_json::Value::Bool(b) => JsonValue::Bool(*b),
        serde_json::Value::Number(n) => JsonValue::Number(n.to_string()),
        serde_json::Value::String(s) => JsonValue::Text(s.clone()),
        serde_json::Value::Array(a) => JsonValue::List(a.iter().map(lift).collect()),
        serde_json::Value::Object(o) => JsonValue::Object(
            o.iter().map(|(k, x)| (k.clone(), lift(x))).collect(),
        ),
    }
}

/// Reads a JSON document from text.
pub fn parse_json(text: &str) -> (r: Option<JsonValue>)
    ensures
        match r {
            Some(doc) => json_document(text@) == Some(doc@),
            None => json_document(text@) is None,
        },
{
    match read_document(text) {
        Some(v) => Some(lift(&v)),
        None => None,
    }
}

} // verus!
