//! JSON values, as far as the provider clients write and read them.

use crate::text;
use vstd::prelude::*;

verus! {

/// A JSON value.
#[derive(Debug)]
pub enum Json {
    Null,
    Bool(bool),
    /// A number by its JSON text.
    Number(String),
    Text(String),
    List(Vec<Json>),
    Object(Vec<(String, Json)>),
}

/// A JSON value with its texts as characters.
pub enum JsonView {
    Null,
    Bool(bool),
    Number(Seq<char>),
    Text(Seq<char>),
    List(Seq<JsonView>),
    Object(Seq<(Seq<char>, JsonView)>),
}

/// The value that a JSON value denotes.
pub open spec fn meaning(j: Json) -> JsonView
    decreases j,
{
    match j {
        Json::Null => JsonView::Null,
        Json::Bool(b) => JsonView::Bool(b),
        Json::Number(s) => JsonView::Number(s@),
        Json::Text(s) => JsonView::Text(s@),
        Json::List(items) => JsonView::List(
            Seq::new(
                items@.len(),
                |i: int|
                    if 0 <= i < items@.len() {
                        meaning(items@[i])
                    } else {
                        JsonView::Null
                    },
            ),
        ),
        Json::Object(fields) => JsonView::Object(
            Seq::new(
                fields@.len(),
                |i: int|
                    if 0 <= i < fields@.len() {
                        (fields@[i].0@, meaning(fields@[i].1))
                    } else {
                        (seq![], JsonView::Null)
                    },
            ),
        ),
    }
}

impl View for Json {
    type V = JsonView;

    open spec fn view(&self) -> JsonView {
        meaning(*self)
    }
}

/// The fields of an object, as names and values.
pub open spec fn field_views(fields: Seq<(String, Json)>) -> Seq<(Seq<char>, JsonView)> {
    fields.map_values(|f: (String, Json)| (f.0@, f.1@))
}

/// `fields` with `name` set to `value`: in place if the name was there, else
/// at the end.
pub open spec fn with_field(
    fields: Seq<(Seq<char>, JsonView)>,
    name: Seq<char>,
    value: JsonView,
) -> Seq<(Seq<char>, JsonView)>
    decreases fields.len(),
{
    if fields.len() == 0 {
        seq![(name, value)]
    } else if fields.first().0 == name {
        seq![(name, value)] + fields.drop_first()
    } else {
        seq![fields.first()] + with_field(fields.drop_first(), name, value)
    }
}

/// The first field of that name.
pub open spec fn field(fields: Seq<(String, Json)>, name: Seq<char>) -> Option<Json>
    decreases fields.len(),
{
    if fields.len() == 0 {
        None
    } else if fields.first().0@ == name {
        Some(fields.first().1)
    } else {
        field(fields.drop_first(), name)
    }
}

/// Sets a field.
pub fn set_field(fields: &mut Vec<(String, Json)>, name: &str, value: Json)
    ensures
        field_views(final(fields)@) == with_field(field_views(old(fields)@), name@, value@),
{
    let ghost all = field_views(fields@);
    let mut i: usize = 0;
    assert(all.skip(0) =~= all);
    assert(all.take(0) + with_field(all, name@, value@) =~= with_field(all, name@, value@));
    while i < fields.len() && !text::same(fields[i].0.as_str(), name)
        invariant
            all == field_views(fields@),
            i <= fields@.len(),
            all.take(i as int) + with_field(all.skip(i as int), name@, value@) == with_field(
                all,
                name@,
                value@,
            ),
        decreases fields@.len() - i,
    {
        let ghost rest = all.skip(i as int);
        assert(rest.drop_first() =~= all.skip(i + 1));
        assert(all.take(i as int) + (seq![rest.first()] + with_field(
            all.skip(i + 1),
            name@,
            value@,
        )) =~= all.take(i + 1) + with_field(all.skip(i + 1), name@, value@));
        i += 1;
    }
    let ghost rest = all.skip(i as int);
    if i < fields.len() {
        fields.set(i, (name.to_owned(), value));
        assert(rest.drop_first() =~= all.skip(i + 1));
        assert(field_views(fields@) =~= all.take(i as int) + (seq![(name@, value@)]
            + rest.drop_first()));
    } else {
        fields.push((name.to_owned(), value));
        assert(field_views(fields@) =~= all.take(i as int) + seq![(name@, value@)]);
    }
}

impl Json {
    pub fn text(s: &str) -> (r: Json)
        ensures
            r@ == JsonView::Text(s@),
    {
        Json::Text(s.to_owned())
    }

    /// A number by its JSON text.
    pub fn number(s: &str) -> (r: Json)
        ensures
            r@ == JsonView::Number(s@),
    {
        Json::Number(s.to_owned())
    }

    /// A list of one value.
    pub fn list_of(item: Json) -> (r: Json)
        ensures
            r@ == JsonView::List(seq![item@]),
    {
        let mut items: Vec<Json> = Vec::new();
        items.push(item);
        let r = Json::List(items);
        assert(r@->List_0 =~= seq![item@]);
        r
    }

    pub fn list(items: Vec<Json>) -> (r: Json)
        ensures
            r@ == JsonView::List(items@.map_values(|j: Json| j@)),
    {
        let r = Json::List(items);
        assert(r@->List_0 =~= items@.map_values(|j: Json| j@));
        r
    }

    pub fn object(fields: Vec<(String, Json)>) -> (r: Json)
        ensures
            r@ == JsonView::Object(field_views(fields@)),
    {
        let r = Json::Object(fields);
        assert(r@->Object_0 =~= field_views(fields@));
        r
    }

    /// An object with one field.
    pub fn object_of(name: &str, value: Json) -> (r: Json)
        ensures
            r@ == JsonView::Object(seq![(name@, value@)]),
    {
        let mut fields: Vec<(String, Json)> = Vec::new();
        fields.push((name.to_owned(), value));
        assert(field_views(fields@) =~= seq![(name@, value@)]);
        Json::object(fields)
    }

    /// The field `name` of an object. Other values have none.
    pub fn get(&self, name: &str) -> (r: Option<&Json>)
        ensures
            match *self {
                Json::Object(fields) => match field(fields@, name@) {
                    Some(value) => r == Some(&value),
                    None => r is None,
                },
                _ => r is None,
            },
    {
        match self {
            Json::Object(fields) => {
                let mut i: usize = 0;
                assert(fields@.skip(0) =~= fields@);
                while i < fields.len()
                    invariant
                        i <= fields@.len(),
                        *self == Json::Object(*fields),
                        field(fields@.skip(i as int), name@) == field(fields@, name@),
                    decreases fields@.len() - i,
                {
                    assert(fields@.skip(i as int).drop_first() =~= fields@.skip(i + 1));
                    if text::same(fields[i].0.as_str(), name) {
                        return Some(&fields[i].1);
                    }
                    i += 1;
                }
                None
            },
            _ => None,
        }
    }
}

// ─── Laws ──────────────────────────────────────────────────────────────

/// Whether the object has exactly one field of that name, with that value.
pub open spec fn has_field(
    fields: Seq<(Seq<char>, JsonView)>,
    name: Seq<char>,
    value: JsonView,
) -> bool {
    exists|i: int| #[trigger]
        fields[i] == (name, value) && 0 <= i < fields.len() && forall|j: int|
            0 <= j < fields.len() && (#[trigger] fields[j]).0 == name ==> j == i
}

/// A field that is set has its value, once, however often the object had it; every
/// other field stays as it was.
pub proof fn law_setting_a_field_changes_that_field(
    fields: Seq<(Seq<char>, JsonView)>,
    name: Seq<char>,
    value: JsonView,
    other: Seq<char>,
    stays: JsonView,
)
    requires
        forall|i: int, j: int|
            0 <= i < j < fields.len() ==> (#[trigger] fields[i]).0 != (#[trigger] fields[j]).0,
    ensures
        has_field(with_field(fields, name, value), name, value),
        other != name ==> (has_field(fields, other, stays) <==> has_field(
            with_field(fields, name, value),
            other,
            stays,
        )),
        forall|i: int, j: int|
            0 <= i < j < with_field(fields, name, value).len() ==> (#[trigger] with_field(
                fields,
                name,
                value,
            )[i]).0 != (#[trigger] with_field(fields, name, value)[j]).0,
{
    let after = with_field(fields, name, value);
    let k = lemma_with_field(fields, name, value);
    assert(after[k] == (name, value));
    assert forall|i: int, j: int| 0 <= i < j < after.len() implies (#[trigger] after[i]).0 != (
    #[trigger] after[j]).0 by {
        assert(i != k ==> after[i] == fields[i]);
        assert(j != k ==> after[j] == fields[j]);
        assert(k < fields.len() ==> fields[k].0 == name);
    }
    assert forall|j: int| 0 <= j < after.len() && (#[trigger] after[j]).0 == name implies j
        == k by {
        if j < k {
            assert(after[j].0 != after[k].0);
        } else if k < j {
            assert(after[k].0 != after[j].0);
        }
    }
    if other != name {
        if has_field(fields, other, stays) {
            let i = choose|i: int| #[trigger]
                fields[i] == (other, stays) && 0 <= i < fields.len() && forall|j: int|
                    0 <= j < fields.len() && (#[trigger] fields[j]).0 == other ==> j == i;
            assert(after[i] == (other, stays));
            assert forall|j: int| 0 <= j < after.len() && (#[trigger] after[j]).0
                == other implies j == i by {
                assert(j != k);
                assert(after[j] == fields[j]);
            }
        }
        if has_field(after, other, stays) {
            let i = choose|i: int| #[trigger]
                after[i] == (other, stays) && 0 <= i < after.len() && forall|j: int|
                    0 <= j < after.len() && (#[trigger] after[j]).0 == other ==> j == i;
            assert(i != k);
            assert(fields[i] == (other, stays));
            assert forall|j: int| 0 <= j < fields.len() && (#[trigger] fields[j]).0
                == other implies j == i by {
                assert(j != k ==> after[j] == fields[j]);
            }
        }
    }
}

/// Where a field is set: at its old place, or behind all others.
proof fn lemma_with_field(
    fields: Seq<(Seq<char>, JsonView)>,
    name: Seq<char>,
    value: JsonView,
) -> (k: int)
    ensures
        0 <= k <= fields.len(),
        k < fields.len() ==> fields[k].0 == name,
        forall|j: int| 0 <= j < k ==> (#[trigger] fields[j]).0 != name,
        with_field(fields, name, value) == (if k < fields.len() {
            fields.update(k, (name, value))
        } else {
            fields.push((name, value))
        }),
    decreases fields.len(),
{
    if fields.len() == 0 {
        assert(fields.push((name, value)) =~= seq![(name, value)]);
        0
    } else if fields.first().0 == name {
        assert(fields.update(0, (name, value)) =~= seq![(name, value)] + fields.drop_first());
        0
    } else {
        let rest = fields.drop_first();
        let k = lemma_with_field(rest, name, value);
        assert forall|j: int| 0 <= j < k + 1 implies (#[trigger] fields[j]).0 != name by {
            if j > 0 {
                assert(rest[j - 1] == fields[j]);
            }
        }
        if k < rest.len() {
            assert(rest[k] == fields[k + 1]);
            assert(seq![fields.first()] + rest.update(k, (name, value)) =~= fields.update(
                k + 1,
                (name, value),
            ));
        } else {
            assert(seq![fields.first()] + rest.push((name, value)) =~= fields.push((name, value)));
        }
        k + 1
    }
}

/// Looking a field up finds the first of that name, and nothing only if there is
/// none. Returns where it stands.
pub proof fn law_the_first_field_is_found(fields: Seq<(String, Json)>, name: Seq<char>) -> (k: int)
    ensures
        0 <= k <= fields.len(),
        forall|j: int| 0 <= j < k ==> (#[trigger] fields[j]).0@ != name,
        k < fields.len() ==> fields[k].0@ == name && field(fields, name) == Some(fields[k].1),
        k == fields.len() ==> field(fields, name) is None,
    decreases fields.len(),
{
    if fields.len() == 0 || fields.first().0@ == name {
        0
    } else {
        let rest = fields.drop_first();
        let k = law_the_first_field_is_found(rest, name);
        assert forall|j: int| 0 <= j < k + 1 implies (#[trigger] fields[j]).0@ != name by {
            if j > 0 {
                assert(rest[j - 1] == fields[j]);
            }
        }
        if k < rest.len() {
            assert(rest[k] == fields[k + 1]);
        }
        k + 1
    }
}

/// A value keeps all that it was made of: every item of a list and every field of
/// an object, in order.
pub proof fn law_values_keep_their_parts(items: Vec<Json>, fields: Vec<(String, Json)>, i: int)
    ensures
        meaning(Json::List(items)) matches JsonView::List(views) && {
            &&& views.len() == items@.len()
            &&& 0 <= i < items@.len() ==> views[i] == meaning(items@[i])
        },
        meaning(Json::Object(fields)) matches JsonView::Object(views) && {
            &&& views.len() == fields@.len()
            &&& 0 <= i < fields@.len() ==> views[i] == (fields@[i].0@, meaning(fields@[i].1))
        },
        field_views(fields@).len() == fields@.len(),
        0 <= i < fields@.len() ==> field_views(fields@)[i] == (
            fields@[i].0@,
            meaning(fields@[i].1),
        ),
{
    reveal_with_fuel(meaning, 2);
}

} // verus!
