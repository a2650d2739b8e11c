//! JSON values as plain data, read and written through `serde_json`.

use vstd::prelude::*;
use crate::storage::config::same_text;

verus! {

/// A JSON value. A number is kept as its text, so no float is needed; the
/// members of an object are kept in order, each key with its value.
#[derive(Debug)]
pub enum Json {
    Null,
    Bool(bool),
    Number(String),
    Str(String),
    Array(Vec<Json>),
    Object(Vec<(String, Json)>),
}

/// The mathematical value of a `Json`.
pub enum JsonView {
    Null,
    Bool(bool),
    Number(Seq<char>),
    Str(Seq<char>),
    Array(Seq<JsonView>),
    Object(Seq<(Seq<char>, JsonView)>),
}

/// The view of a JSON value: texts as character sequences, arrays and
/// objects as sequences of views.
pub open spec fn json_view(j: Json) -> JsonView
    decreases j,
{
    match j {
        Json::Null => JsonView::Null,
        Json::Bool(b) => JsonView::Bool(b),
        Json::Number(n) => JsonView::Number(n@),
        Json::Str(s) => JsonView::Str(s@),
        Json::Array(a) => JsonView::Array(
            Seq::new(
                a@.len(),
                |i: int|
                    if 0 <= i < a@.len() {
                        json_view(a@[i])
                    } else {
                        JsonView::Null
                    },
            ),
        ),
        Json::Object(o) => JsonView::Object(
            Seq::new(
                o@.len(),
                |i: int|
                    if 0 <= i < o@.len() {
                        (o@[i].0@, json_view(o@[i].1))
                    } else {
                        (Seq::empty(), JsonView::Null)
                    },
            ),
        ),
    }
}

impl View for Json {
    type V = JsonView;

    open spec fn view(&self) -> JsonView {
        json_view(*self)
    }
}

/// The view of an optional JSON value.
pub open spec fn opt_json_view(j: Option<Json>) -> Option<JsonView> {
    match j {
        Some(v) => Some(v@),
        None => None,
    }
}

/// The value that `serde_json` reads from `text`, `None` where the text is
/// not JSON.
pub uninterp spec fn serde_json_parse(text: Seq<char>) -> Option<JsonView>;

/// The text that `serde_json` writes for a value in its pretty form, `None`
/// where a number's text is not a JSON number.
pub uninterp spec fn serde_json_pretty(v: JsonView) -> Option<Seq<char>>;

/// The declaration of `serde_json::Value`, which the two conversions below
/// take and give.
#[verifier::external_type_specification]
#[verifier::external_body]
pub struct ExJsonValue(serde_json::Value);

/// Converts a `serde_json::Value` variant by variant; a number becomes its
/// text. Nothing is claimed of it; it only serves `parse_json`.
#[verifier::external_body]
fn json_of_value(v: &serde_json::Value) -> Json {
    match v {
        serde_json::Value::Null => Json::Null,
        serde_json::Value::Bool(b) => Json::Bool(*b),
        serde_json::Value::Number(n) => Json::Number(n.to_string()),
        serde_json::Value::String(s) => Json::Str(s.clone()),
        serde_json::Value::Array(a) => Json::Array(a.iter().map(json_of_value).collect()),
        serde_json::Value::Object(o) => Json::Object(
            o.iter().map(|(k, x)| (k.clone(), json_of_value(x))).collect(),
        ),
    }
}

/// Converts a `Json` back variant by variant; a number's text is read with
/// `serde_json::from_str`, `None` where it is not a JSON number. Nothing is
/// claimed of it; it only serves `render_json`.
#[verifier::external_body]
fn value_of_json(j: &Json) -> Option<serde_json::Value> {
    Some(
        match j {
            Json::Null => serde_json::Value::Null,
            Json::Bool(b) => serde_json::Value::Bool(*b),
            Json::Number(n) => serde_json::Value::Number(serde_json::from_str(n).ok()?),
            Json::Str(s) => serde_json::Value::String(s.clone()),
            Json::Array(a) => serde_json::Value::Array(
                a.iter().map(value_of_json).collect::<Option<_>>()?,
            ),
            Json::Object(o) => serde_json::Value::Object(
                o.iter().map(|(k, x)| Some((k.clone(), value_of_json(x)?))).collect::<Option<_>>()?,
            ),
        },
    )
}

/// Reads `text` as JSON with `serde_json::from_str` into a
/// `serde_json::Value`, converted to a `Json`. Claimed: the result depends on
/// the text alone and is named `serde_json_parse`.
#[verifier::external_body]
pub(crate) fn parse_json(text: &str) -> (r: Option<Json>)
    ensures
        opt_json_view(r) == serde_json_parse(text@),
{
    serde_json::from_str::<serde_json::Value>(text).ok().map(|v| json_of_value(&v))
}

/// Writes `j` with `serde_json::to_string_pretty`, after converting it to a
/// `serde_json::Value`. Claimed: the result depends on the value alone and is
/// named `serde_json_pretty`.
#[verifier::external_body]
pub(crate) fn render_json(j: &Json) -> (r: Option<String>)
    ensures
        match r {
            Some(s) => serde_json_pretty(j@) == Some(s@),
            None => serde_json_pretty(j@) is None,
        },
{
    serde_json::to_string_pretty(&value_of_json(j)?).ok()
}

// ---------------------------------------------------------------------------
// Reading and writing members, as `serde_json` indexes a value.
// ---------------------------------------------------------------------------

/// The views of the items of an array.
pub open spec fn items_view(a: Seq<Json>) -> Seq<JsonView> {
    Seq::new(a.len(), |i: int| json_view(a[i]))
}

/// The views of the members of an object.
pub open spec fn members_view(o: Seq<(String, Json)>) -> Seq<(Seq<char>, JsonView)> {
    Seq::new(o.len(), |i: int| (o[i].0@, json_view(o[i].1)))
}

/// Position of the first member named `k`; the length when there is none.
pub open spec fn member_pos(o: Seq<(Seq<char>, JsonView)>, k: Seq<char>) -> nat
    decreases o.len(),
{
    if o.len() == 0 {
        0
    } else if o[0].0 == k {
        0
    } else {
        1 + member_pos(o.drop_first(), k)
    }
}

/// The member named `k` of an object (`get`); `None` for anything else.
pub open spec fn member(v: JsonView, k: Seq<char>) -> Option<JsonView> {
    match v {
        JsonView::Object(o) => {
            let i = member_pos(o, k);
            if i < o.len() {
                Some(o[i as int].1)
            } else {
                None
            }
        },
        _ => None,
    }
}

/// `v[k]` read: the member named `k`, or `null`.
pub open spec fn at(v: JsonView, k: Seq<char>) -> JsonView {
    match member(v, k) {
        Some(x) => x,
        None => JsonView::Null,
    }
}

/// The members of `v` when it is an object; none otherwise.
pub open spec fn members_of(v: JsonView) -> Seq<(Seq<char>, JsonView)> {
    match v {
        JsonView::Object(o) => o,
        _ => Seq::empty(),
    }
}

/// `v[k] = x` on an object or on `null` (which becomes an object): the first
/// member named `k` takes the value `x`, or a member `k: x` is added at the end.
pub open spec fn with_member(v: JsonView, k: Seq<char>, x: JsonView) -> JsonView {
    let o = members_of(v);
    let i = member_pos(o, k);
    JsonView::Object(
        if i < o.len() {
            o.update(i as int, (k, x))
        } else {
            o.push((k, x))
        },
    )
}

/// Whether `v[k] = x` can be done on `v`: it is an object or `null`.
pub open spec fn assignable(v: JsonView) -> bool {
    v is Object || v is Null
}

// ---------------------------------------------------------------------------
// Lemmas and lookups.
// ---------------------------------------------------------------------------

pub proof fn lemma_view_array(a: Vec<Json>)
    ensures
        json_view(Json::Array(a)) == JsonView::Array(items_view(a@)),
{
    match json_view(Json::Array(a)) {
        JsonView::Array(s) => {
            assert(s =~= items_view(a@));
        },
        _ => {},
    }
}

pub proof fn lemma_view_object(o: Vec<(String, Json)>)
    ensures
        json_view(Json::Object(o)) == JsonView::Object(members_view(o@)),
{
    match json_view(Json::Object(o)) {
        JsonView::Object(s) => {
            assert(s =~= members_view(o@));
        },
        _ => {},
    }
}

pub proof fn lemma_member_pos(o: Seq<(Seq<char>, JsonView)>, k: Seq<char>)
    ensures
        member_pos(o, k) <= o.len(),
        member_pos(o, k) < o.len() ==> o[member_pos(o, k) as int].0 == k,
        forall|j: int| 0 <= j < member_pos(o, k) ==> o[j].0 != k,
    decreases o.len(),
{
    if o.len() > 0 && o[0].0 != k {
        lemma_member_pos(o.drop_first(), k);
        assert forall|j: int| 0 <= j < member_pos(o, k) implies o[j].0 != k by {
            if j > 0 {
                assert(o[j] == o.drop_first()[j - 1]);
            }
        }
    }
}

/// `member_pos` is the one position with no earlier member named `k` and,
/// unless it is the end, the name `k` there.
pub proof fn lemma_member_pos_is(o: Seq<(Seq<char>, JsonView)>, k: Seq<char>, i: int)
    requires
        0 <= i <= o.len(),
        forall|j: int| 0 <= j < i ==> o[j].0 != k,
        i < o.len() ==> o[i].0 == k,
    ensures
        member_pos(o, k) == i,
{
    lemma_member_pos(o, k);
    let p = member_pos(o, k) as int;
    if p < i {
        assert(o[p].0 == k);
    } else if i < p {
        assert(o[i].0 != k);
    }
}

/// The views of the parts of an array or an object.
pub proof fn lemma_view(j: Json)
    ensures
        j matches Json::Array(a) ==> json_view(j) == JsonView::Array(items_view(a@)),
        j matches Json::Object(o) ==> json_view(j) == JsonView::Object(members_view(o@)),
{
    match j {
        Json::Array(a) => lemma_view_array(a),
        Json::Object(o) => lemma_view_object(o),
        _ => {},
    }
}

/// Position of the first member named `k`; the length when there is none.
pub fn find_member(o: &Vec<(String, Json)>, k: &str) -> (r: usize)
    ensures
        r == member_pos(members_view(o@), k@),
{
    let ghost m = members_view(o@);
    proof {
        lemma_member_pos(m, k@);
    }
    let mut i: usize = 0;
    while i < o.len()
        invariant
            i <= o@.len(),
            m == members_view(o@),
            forall|j: int| 0 <= j < i ==> m[j].0 != k@,
        decreases o@.len() - i,
    {
        assert(m[i as int].0 == o@[i as int].0@);
        if same_text(o[i].0.as_str(), k) {
            proof {
                lemma_member_pos_is(m, k@, i as int);
            }
            return i;
        }
        i = i + 1;
    }
    proof {
        lemma_member_pos_is(m, k@, i as int);
    }
    i
}

/// The member named `k` of `v`, when `v` is an object that has one.
pub fn get_member<'a>(v: &'a Json, k: &str) -> (r: Option<&'a Json>)
    ensures
        match r {
            Some(x) => member(v@, k@) == Some(x@),
            None => member(v@, k@) is None,
        },
{
    proof {
        lemma_view(*v);
    }
    match v {
        Json::Object(o) => {
            let i = find_member(o, k);
            if i < o.len() {
                Some(&o[i].1)
            } else {
                None
            }
        },
        _ => None,
    }
}

} // verus!
