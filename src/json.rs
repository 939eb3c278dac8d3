use vstd::prelude::*;

verus! {

/// A JSON document as a mathematical value. Numbers are never read, so
/// their value is not kept; an object keeps its members in order.
pub enum JsonView {
    Null,
    Bool(bool),
    Number,
    Str(Seq<char>),
    Array(Seq<JsonView>),
    Object(Seq<(Seq<char>, JsonView)>),
}

/// A JSON document as `serde_json` read it.
pub enum Json {
    Null,
    Bool(bool),
    Number,
    Str(String),
    Array(Vec<Json>),
    Object(Vec<(String, Json)>),
}

pub open spec fn json_view(j: Json) -> JsonView
    decreases j,
{
    match j {
        Json::Null => JsonView::Null,
        Json::Bool(b) => JsonView::Bool(b),
        Json::Number => JsonView::Number,
        Json::Str(s) => JsonView::Str(s@),
        Json::Array(v) => JsonView::Array(list_view(v@)),
        Json::Object(v) => JsonView::Object(members_view(v@)),
    }
}

pub open spec fn list_view(s: Seq<Json>) -> Seq<JsonView>
    decreases s,
{
    if s.len() == 0 {
        seq![]
    } else {
        list_view(s.drop_last()).push(json_view(s.last()))
    }
}

pub open spec fn members_view(s: Seq<(String, Json)>) -> Seq<(Seq<char>, JsonView)>
    decreases s,
{
    if s.len() == 0 {
        seq![]
    } else {
        members_view(s.drop_last()).push((s.last().0@, json_view(s.last().1)))
    }
}

pub proof fn lemma_list_view(s: Seq<Json>)
    ensures
        list_view(s).len() == s.len(),
        forall|i: int| 0 <= i < s.len() ==> #[trigger] list_view(s)[i] == json_view(s[i]),
    decreases s.len(),
{
    if s.len() > 0 {
        lemma_list_view(s.drop_last());
        assert forall|i: int| 0 <= i < s.len() implies #[trigger] list_view(s)[i] == json_view(s[i]) by {
            if i < s.len() - 1 {
                assert(s.drop_last()[i] == s[i]);
            }
        }
    }
}

pub proof fn lemma_members_view(s: Seq<(String, Json)>)
    ensures
        members_view(s).len() == s.len(),
        forall|i: int|
            0 <= i < s.len() ==> #[trigger] members_view(s)[i] == (s[i].0@, json_view(s[i].1)),
    decreases s.len(),
{
    if s.len() > 0 {
        lemma_members_view(s.drop_last());
        assert forall|i: int| 0 <= i < s.len() implies #[trigger] members_view(s)[i] == (
            s[i].0@,
            json_view(s[i].1),
        ) by {
            if i < s.len() - 1 {
                assert(s.drop_last()[i] == s[i]);
            }
        }
    }
}

#[verifier::external_type_specification]
#[verifier::external_body]
pub struct ExJsonValue(serde_json::Value);

/// The document that `serde_json::from_slice` reads from some bytes, if they
/// hold one.
pub uninterp spec fn json_of(b: Seq<u8>) -> Option<JsonView>;

/// Relies on `serde_json::from_slice` into a `serde_json::Value`: the
/// document depends on the bytes alone; `None` where they hold no JSON
/// document. The value is moved into `Json` variant by variant.
#[verifier::external_body]
pub fn parse_json(b: &[u8]) -> (r: Option<Json>)
    ensures
        match r {
            Some(j) => json_of(b@) == Some(json_view(j)),
            None => json_of(b@) is None,
        },
{
    serde_json::from_slice::<serde_json::Value>(b).ok().map(json_from_value)
}

/// Relies on the variants of `serde_json::Value`: each is moved into the
/// matching variant of `Json` (object members in the map's order).
#[verifier::external_body]
fn json_from_value(v: serde_json::Value) -> Json {
    match v {
        serde_json::Value::Null => Json::Null,
        serde_json::Value::Bool(b) => Json::Bool(b),
        serde_json::Value::Number(_) => Json::Number,
        serde_json::Value::String(s) => Json::Str(s),
        serde_json::Value::Array(a) => Json::Array(a.into_iter().map(json_from_value).collect()),
        serde_json::Value::Object(m) => Json::Object(
            m.into_iter().map(|(k, x)| (k, json_from_value(x))).collect(),
        ),
    }
}

/// The value of the first member named `key`.
pub open spec fn find_member(es: Seq<(Seq<char>, JsonView)>, key: Seq<char>) -> Option<JsonView>
    decreases es.len(),
{
    if es.len() == 0 {
        None
    } else if es[0].0 == key {
        Some(es[0].1)
    } else {
        find_member(es.drop_first(), key)
    }
}

/// The member `key` of an object; `None` for anything else.
pub open spec fn member_of(j: JsonView, key: Seq<char>) -> Option<JsonView> {
    match j {
        JsonView::Object(es) => find_member(es, key),
        _ => None,
    }
}

/// The member `key` of a member, if both are there.
pub open spec fn member2_of(j: Option<JsonView>, key: Seq<char>) -> Option<JsonView> {
    match j {
        Some(x) => member_of(x, key),
        None => None,
    }
}

/// The text of a string; `None` for anything else.
pub open spec fn text_of(j: Option<JsonView>) -> Option<Seq<char>> {
    match j {
        Some(JsonView::Str(s)) => Some(s),
        _ => None,
    }
}

proof fn lemma_find_member_skip(es: Seq<(Seq<char>, JsonView)>, key: Seq<char>, k: int)
    requires
        0 <= k < es.len(),
        forall|i: int| 0 <= i < k ==> es[i].0 != key,
    ensures
        find_member(es, key) == find_member(es.subrange(k, es.len() as int), key),
    decreases k,
{
    if k > 0 {
        assert(es.drop_first().subrange(k - 1, es.drop_first().len() as int) =~= es.subrange(k, es.len() as int));
        assert forall|i: int| 0 <= i < k - 1 implies es.drop_first()[i].0 != key by {
            assert(es.drop_first()[i] == es[i + 1]);
        }
        lemma_find_member_skip(es.drop_first(), key, k - 1);
    } else {
        assert(es.subrange(0, es.len() as int) =~= es);
    }
}

/// The member `key` of an object; `None` for anything else.
pub fn member<'a>(j: &'a Json, key: &str) -> (r: Option<&'a Json>)
    ensures
        match r {
            Some(x) => member_of(json_view(*j), key@) == Some(json_view(*x)),
            None => member_of(json_view(*j), key@) is None,
        },
{
    match j {
        Json::Object(es) => {
            proof {
                lemma_members_view(es@);
            }
            let ghost mv = members_view(es@);
            assert(json_view(*j) == JsonView::Object(mv));
            let mut i: usize = 0;
            while i < es.len()
                invariant
                    i <= es@.len(),
                    mv == members_view(es@),
                    json_view(*j) == JsonView::Object(mv),
                    mv.len() == es@.len(),
                    forall|k: int| 0 <= k < es@.len() ==> #[trigger] mv[k] == (es@[k].0@, json_view(es@[k].1)),
                    forall|k: int| 0 <= k < i ==> mv[k].0 != key@,
                decreases es@.len() - i,
            {
                if crate::text::same_text(es[i].0.as_str(), key) {
                    proof {
                        lemma_find_member_skip(mv, key@, i as int);
                        let rest = mv.subrange(i as int, mv.len() as int);
                        assert(rest[0] == mv[i as int]);
                        assert(mv[i as int] == (es@[i as int].0@, json_view(es@[i as int].1)));
                        assert(find_member(rest, key@) == Some(rest[0].1));
                        assert(find_member(mv, key@) == Some(json_view(es@[i as int].1)));
                        assert(member_of(json_view(*j), key@) == Some(json_view(es@[i as int].1)));
                    }
                    return Some(&es[i].1);
                }
                i = i + 1;
            }
            proof {
                if es@.len() > 0 {
                    lemma_find_member_skip(mv, key@, es@.len() - 1);
                    let last = mv.subrange(es@.len() - 1, mv.len() as int);
                    assert(last[0] == mv[es@.len() - 1]);
                    assert(last.drop_first().len() == 0);
                    assert(find_member(last.drop_first(), key@) is None);
                    assert(find_member(last, key@) is None);
                } else {
                    assert(find_member(mv, key@) is None);
                }
            }
            None
        },
        _ => None,
    }
}

pub open spec fn opt_view(j: Option<&Json>) -> Option<JsonView> {
    match j {
        Some(x) => Some(json_view(*x)),
        None => None,
    }
}

/// The text of a string; `None` for anything else.
pub fn text<'a>(j: Option<&'a Json>) -> (r: Option<&'a String>)
    ensures
        match r {
            Some(s) => text_of(opt_view(j)) == Some(s@),
            None => text_of(opt_view(j)) is None,
        },
{
    match j {
        Some(Json::Str(s)) => Some(s),
        _ => None,
    }
}

} // verus!
