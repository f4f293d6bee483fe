//! A generic structured value, as a decoded record is presented, and the
//! recursive removal of empty fields.
use vstd::prelude::*;

verus! {

/// A structured value. Numbers are kept as their decimal text.
#[derive(Debug, PartialEq)]
pub enum Json {
    Null,
    Bool(bool),
    Number(String),
    Str(String),
    Array(Vec<Json>),
    Object(Vec<(String, Json)>),
}

/// The mathematical model of a `Json` value.
pub enum JsonView {
    Null,
    Bool(bool),
    Number(Seq<char>),
    Str(Seq<char>),
    Array(Seq<JsonView>),
    Object(Seq<(Seq<char>, JsonView)>),
}

impl Json {
    pub open spec fn view(&self) -> JsonView
        decreases self,
    {
        match self {
            Json::Null => JsonView::Null,
            Json::Bool(b) => JsonView::Bool(*b),
            Json::Number(n) => JsonView::Number(n@),
            Json::Str(s) => JsonView::Str(s@),
            Json::Array(a) => JsonView::Array(view_items(a@)),
            Json::Object(m) => JsonView::Object(view_members(m@)),
        }
    }
}

/// The models of a sequence of values, in order.
pub open spec fn view_items(a: Seq<Json>) -> Seq<JsonView>
    decreases a,
{
    if a.len() == 0 {
        Seq::empty()
    } else {
        view_items(a.drop_last()).push(a.last().view())
    }
}

/// The models of a sequence of named members, in order.
pub open spec fn view_members(m: Seq<(String, Json)>) -> Seq<(Seq<char>, JsonView)>
    decreases m,
{
    if m.len() == 0 {
        Seq::empty()
    } else {
        view_members(m.drop_last()).push((m.last().0@, m.last().1.view()))
    }
}


/// A value that carries nothing: null, an empty string, an empty array or an
/// empty object.
pub open spec fn is_blank(v: JsonView) -> bool {
    match v {
        JsonView::Null => true,
        JsonView::Str(s) => s.len() == 0,
        JsonView::Array(a) => a.len() == 0,
        JsonView::Object(m) => m.len() == 0,
        _ => false,
    }
}

/// A value with every blank element and member removed at every depth,
/// blanks left behind by the removal included. The value itself stays.
pub open spec fn stripped(v: JsonView) -> JsonView
    decreases v,
{
    match v {
        JsonView::Array(a) => JsonView::Array(strip_items(a)),
        JsonView::Object(m) => JsonView::Object(strip_members(m)),
        _ => v,
    }
}

/// The stripped elements that are not blank, in order.
pub open spec fn strip_items(a: Seq<JsonView>) -> Seq<JsonView>
    decreases a,
{
    if a.len() == 0 {
        Seq::empty()
    } else {
        let rest = strip_items(a.drop_last());
        let x = stripped(a.last());
        if is_blank(x) {
            rest
        } else {
            rest.push(x)
        }
    }
}

/// The members whose stripped value is not blank, with that value, in order.
pub open spec fn strip_members(m: Seq<(Seq<char>, JsonView)>) -> Seq<(Seq<char>, JsonView)>
    decreases m,
{
    if m.len() == 0 {
        Seq::empty()
    } else {
        let rest = strip_members(m.drop_last());
        let x = stripped(m.last().1);
        if is_blank(x) {
            rest
        } else {
            rest.push((m.last().0, x))
        }
    }
}

impl Json {
    /// Whether the value carries nothing.
    pub fn is_blank(&self) -> (r: bool)
        ensures
            r == is_blank(self@),
    {
        match self {
            Json::Null => true,
            Json::Str(s) => s.unicode_len() == 0,
            Json::Array(a) => {
                proof {
                    lemma_view_items_len(a@);
                }
                a.len() == 0
            },
            Json::Object(m) => {
                proof {
                    lemma_view_members_len(m@);
                }
                m.len() == 0
            },
            _ => false,
        }
    }
}

proof fn lemma_view_items_len(a: Seq<Json>)
    ensures
        view_items(a).len() == a.len(),
    decreases a.len(),
{
    if a.len() > 0 {
        lemma_view_items_len(a.drop_last());
    }
}

proof fn lemma_view_members_len(m: Seq<(String, Json)>)
    ensures
        view_members(m).len() == m.len(),
    decreases m.len(),
{
    if m.len() > 0 {
        lemma_view_members_len(m.drop_last());
    }
}

/// A copy of a value with every blank element and member removed at every
/// depth; the value itself is kept even where it ends up blank.
pub fn strip_nulls(value: &Json) -> (r: Json)
    ensures
        r@ == stripped(value@),
    decreases value,
{
    match value {
        Json::Null => Json::Null,
        Json::Bool(b) => Json::Bool(*b),
        Json::Number(n) => Json::Number(n.clone()),
        Json::Str(s) => Json::Str(s.clone()),
        Json::Array(a) => {
            let mut out: Vec<Json> = Vec::new();
            let mut i: usize = 0;
            while i < a.len()
                invariant
                    i <= a@.len(),
                    view_items(out@) == strip_items(view_items(a@.subrange(0, i as int))),
                    value@ == JsonView::Array(view_items(a@)),
                    *value == Json::Array(*a),
                decreases a@.len() - i,
            {
                proof {
                    vstd::std_specs::vec::axiom_vec_index_decreases(*a, i as int);
                    assert(decreases_to!(*value => a[i as int]));
                }
                let x = strip_nulls(&a[i]);
                proof {
                    let s = a@.subrange(0, i as int + 1);
                    assert(s.drop_last() =~= a@.subrange(0, i as int));
                    assert(view_items(s).drop_last() == view_items(s.drop_last()));
                }
                if !x.is_blank() {
                    let ghost prev = out@;
                    out.push(x);
                    assert(out@.drop_last() =~= prev);
                }
                i += 1;
            }
            assert(a@.subrange(0, a@.len() as int) =~= a@);
            Json::Array(out)
        },
        Json::Object(m) => {
            let mut out: Vec<(String, Json)> = Vec::new();
            let mut i: usize = 0;
            while i < m.len()
                invariant
                    i <= m@.len(),
                    view_members(out@) == strip_members(view_members(m@.subrange(0, i as int))),
                    value@ == JsonView::Object(view_members(m@)),
                    *value == Json::Object(*m),
                decreases m@.len() - i,
            {
                proof {
                    vstd::std_specs::vec::axiom_vec_index_decreases(*m, i as int);
                    assert(decreases_to!(*value => m[i as int].1));
                }
                let x = strip_nulls(&m[i].1);
                proof {
                    let s = m@.subrange(0, i as int + 1);
                    assert(s.drop_last() =~= m@.subrange(0, i as int));
                    assert(view_members(s).drop_last() == view_members(s.drop_last()));
                }
                if !x.is_blank() {
                    let ghost prev = out@;
                    let k = m[i].0.clone();
                    out.push((k, x));
                    assert(out@.drop_last() =~= prev);
                }
                i += 1;
            }
            assert(m@.subrange(0, m@.len() as int) =~= m@);
            Json::Object(out)
        },
    }
}


/// A value that is kept as it is by stripping and is not blank.
pub open spec fn is_filled_scalar(v: JsonView) -> bool {
    match v {
        JsonView::Bool(_) => true,
        JsonView::Number(_) => true,
        JsonView::Str(s) => s.len() > 0,
        _ => false,
    }
}

/// Keys that name at most one member each.
pub open spec fn keys_unique(m: Seq<(Seq<char>, JsonView)>) -> bool {
    forall|i: int, j: int| 0 <= i < m.len() && 0 <= j < m.len() && i != j ==> #[trigger] m[i].0 != #[trigger] m[j].0
}

proof fn lemma_strip_members_origin(m: Seq<(Seq<char>, JsonView)>)
    ensures
        forall|p: int|
            0 <= p < strip_members(m).len() ==> exists|j: int|
                0 <= j < m.len() && #[trigger] strip_members(m)[p] == (m[j].0, stripped(m[j].1))
                    && !is_blank(stripped(m[j].1)),
    decreases m.len(),
{
    if m.len() > 0 {
        let rest = m.drop_last();
        lemma_strip_members_origin(rest);
        assert forall|p: int| 0 <= p < strip_members(m).len() implies exists|j: int|
            0 <= j < m.len() && #[trigger] strip_members(m)[p] == (m[j].0, stripped(m[j].1))
                && !is_blank(stripped(m[j].1)) by {
            if p < strip_members(rest).len() {
                let j = choose|j: int|
                    0 <= j < rest.len() && #[trigger] strip_members(rest)[p] == (rest[j].0, stripped(rest[j].1))
                        && !is_blank(stripped(rest[j].1));
                assert(m[j] == rest[j]);
            } else {
                assert(m[m.len() - 1] == m.last());
            }
        }
    }
}

proof fn lemma_strip_members_keeps(m: Seq<(Seq<char>, JsonView)>, i: int)
    requires
        0 <= i < m.len(),
        !is_blank(stripped(m[i].1)),
    ensures
        strip_members(m).contains((m[i].0, stripped(m[i].1))),
    decreases m.len(),
{
    if i < m.len() - 1 {
        let rest = m.drop_last();
        assert(rest[i] == m[i]);
        lemma_strip_members_keeps(rest, i);
        let k = choose|k: int| 0 <= k < strip_members(rest).len() && strip_members(rest)[k] == (m[i].0, stripped(m[i].1));
        assert(strip_members(m)[k] == strip_members(rest)[k]);
    } else {
        let out = strip_members(m);
        assert(out[out.len() - 1] == (m[i].0, stripped(m[i].1)));
    }
}

/// In an object with unique keys, at any depth, a member whose value is or
/// strips to a blank value is gone after stripping, while a sibling whose
/// value is a non-blank scalar is kept unchanged.
pub proof fn lemma_blank_member_omitted(m: Seq<(Seq<char>, JsonView)>, blank: int, filled: int)
    requires
        keys_unique(m),
        0 <= blank < m.len(),
        0 <= filled < m.len(),
        is_blank(stripped(m[blank].1)),
        is_filled_scalar(m[filled].1),
    ensures
        stripped(JsonView::Object(m)) == JsonView::Object(strip_members(m)),
        forall|p: int| 0 <= p < strip_members(m).len() ==> (#[trigger] strip_members(m)[p]).0 != m[blank].0,
        strip_members(m).contains(m[filled]),
{
    lemma_strip_members_origin(m);
    assert forall|p: int| 0 <= p < strip_members(m).len() implies (#[trigger] strip_members(m)[p]).0
        != m[blank].0 by {
        let j = choose|j: int|
            0 <= j < m.len() && #[trigger] strip_members(m)[p] == (m[j].0, stripped(m[j].1))
                && !is_blank(stripped(m[j].1));
        assert(j != blank);
        assert(m[j].0 != m[blank].0);
    }
    assert(stripped(m[filled].1) == m[filled].1);
    lemma_strip_members_keeps(m, filled);
}

/// Inside a member of an outer object, the same holds one level down: the
/// member stays, its blank field is gone, and its non-blank scalar sibling is
/// kept unchanged.
pub proof fn lemma_nested_blank_member_omitted(
    outer: Seq<(Seq<char>, JsonView)>,
    member: int,
    m: Seq<(Seq<char>, JsonView)>,
    blank: int,
    filled: int,
)
    requires
        0 <= member < outer.len(),
        outer[member].1 == JsonView::Object(m),
        keys_unique(m),
        0 <= blank < m.len(),
        0 <= filled < m.len(),
        is_blank(stripped(m[blank].1)),
        is_filled_scalar(m[filled].1),
    ensures
        strip_members(outer).contains((outer[member].0, JsonView::Object(strip_members(m)))),
        forall|p: int| 0 <= p < strip_members(m).len() ==> (#[trigger] strip_members(m)[p]).0 != m[blank].0,
        strip_members(m).contains(m[filled]),
{
    lemma_blank_member_omitted(m, blank, filled);
    assert(strip_members(m).len() > 0);
    lemma_strip_members_keeps(outer, member);
}

} // verus!
