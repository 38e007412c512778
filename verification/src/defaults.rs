//! Filling up a configuration section: what the file mentions replaces the
//! default, field by field.

use vstd::prelude::*;

verus! {

/// A JSON value of `serde_json`.
#[verifier::external_type_specification]
#[verifier::external_body]
pub struct ExJsonValue(serde_json::Value);

/// Whether a JSON value is an object.
pub uninterp spec fn is_json_object(v: serde_json::Value) -> bool;

/// The fields of a JSON object, by their names.
pub uninterp spec fn json_fields(v: serde_json::Value) -> Map<Seq<char>, serde_json::Value>;

/// Calls `serde_json::Value::is_object`.  Claimed of it: the answer is whether
/// the value is an object.
#[verifier::external_body]
fn value_is_object(v: &serde_json::Value) -> (r: bool)
    ensures
        r == is_json_object(*v),
{
    v.is_object()
}

/// Calls `serde_json::Map::insert` on the fields of an object.  Claimed of it:
/// the field is set to the value, whether it was there or not, and all other
/// fields stay as they were.
#[verifier::external_body]
fn set_field(v: &mut serde_json::Value, name: String, field: serde_json::Value)
    requires
        is_json_object(*old(v)),
    ensures
        is_json_object(*final(v)),
        json_fields(*final(v)) == json_fields(*old(v)).insert(name@, field),
{
    if let serde_json::Value::Object(fields) = v {
        fields.insert(name, field);
    }
}

/// `list` holds every field once, in some order.
pub open spec fn lists_fields(
    list: Seq<(String, serde_json::Value)>,
    fields: Map<Seq<char>, serde_json::Value>,
) -> bool {
    &&& forall|i: int|
        0 <= i < list.len() ==> fields.dom().contains((#[trigger] list[i]).0@)
            && fields[list[i].0@] == list[i].1
    &&& forall|name: Seq<char>| #[trigger]
        fields.dom().contains(name) ==> exists|i: int|
            0 <= i < list.len() && (#[trigger] list[i]).0@ == name
    &&& forall|i: int, j: int|
        0 <= i < j < list.len() ==> (#[trigger] list[i]).0@ != (#[trigger] list[j]).0@
}

/// Calls the `into_iter` of a `serde_json::Map`.  Claimed of it: every field of
/// the object is handed out once.  The order is left open.
#[verifier::external_body]
fn into_fields(v: serde_json::Value) -> (r: Vec<(String, serde_json::Value)>)
    requires
        is_json_object(v),
    ensures
        lists_fields(r@, json_fields(v)),
{
    match v {
        serde_json::Value::Object(fields) => fields.into_iter().collect(),
        _ => Vec::new(),
    }
}

/// The default fields with those that are provided in their place.
pub open spec fn filled_up(
    defaults: Map<Seq<char>, serde_json::Value>,
    provided: Map<Seq<char>, serde_json::Value>,
) -> Map<Seq<char>, serde_json::Value> {
    defaults.union_prefer_right(provided)
}

/// Sets the provided fields in `defaults`.  Where one of the two is no object,
/// the defaults stay as they are.
pub fn merge_defaults(defaults: serde_json::Value, provided: serde_json::Value) -> (r:
    serde_json::Value)
    ensures
        is_json_object(defaults) && is_json_object(provided) ==> is_json_object(r) && json_fields(r)
            == filled_up(json_fields(defaults), json_fields(provided)),
        !(is_json_object(defaults) && is_json_object(provided)) ==> r == defaults,
{
    if !value_is_object(&defaults) || !value_is_object(&provided) {
        return defaults;
    }
    let ghost base = json_fields(defaults);
    let ghost given = json_fields(provided);
    let mut list: Vec<(String, serde_json::Value)> = into_fields(provided);
    let ghost all = list@;
    let mut merged: serde_json::Value = defaults;
    assert(all.skip(list@.len() as int) =~= Seq::empty());
    while list.len() > 0
        invariant
            list@ == all.take(list@.len() as int),
            list@.len() <= all.len(),
            lists_fields(all, given),
            is_json_object(merged),
            forall|name: Seq<char>| #[trigger]
                json_fields(merged).dom().contains(name) <==> base.dom().contains(name) || exists|
                    i: int,
                |
                    list@.len() <= i < all.len() && (#[trigger] all[i]).0@ == name,
            forall|i: int|
                list@.len() <= i < all.len() ==> json_fields(merged)[(#[trigger] all[i]).0@]
                    == all[i].1,
            forall|name: Seq<char>|
                base.dom().contains(name) && (forall|i: int|
                    list@.len() <= i < all.len() ==> (#[trigger] all[i]).0@ != name)
                    ==> #[trigger] json_fields(merged)[name] == base[name],
        decreases list@.len(),
    {
        let ghost before = json_fields(merged);
        let ghost n = list@.len() as int;
        if let Some((name, value)) = list.pop() {
            proof {
                assert(all[n - 1].0 == name);
                assert(all[n - 1].1 == value);
            }
            set_field(&mut merged, name, value);
            proof {
                assert forall|x: Seq<char>| #[trigger]
                    json_fields(merged).dom().contains(x) <==> base.dom().contains(x) || exists|
                        i: int,
                    |
                        list@.len() <= i < all.len() && (#[trigger] all[i]).0@ == x by {
                    assert(before.dom().contains(x) <==> base.dom().contains(x) || exists|i: int|
                        n <= i < all.len() && (#[trigger] all[i]).0@ == x);
                    if x == name@ {
                        assert(all[n - 1].0@ == x);
                    }
                }
                assert forall|i: int| list@.len() <= i < all.len() implies json_fields(merged)[(
                #[trigger] all[i]).0@] == all[i].1 by {
                    if i > n - 1 {
                        assert(all[n - 1].0@ != all[i].0@);
                    }
                }
                assert forall|x: Seq<char>|
                    base.dom().contains(x) && (forall|i: int|
                        list@.len() <= i < all.len() ==> (#[trigger] all[i]).0@
                            != x) implies #[trigger] json_fields(merged)[x] == base[x] by {
                    assert(all[n - 1].0@ != x);
                    assert(before[x] == base[x]);
                }
            }
        }
    }
    proof {
        let result = json_fields(merged);
        let expected = filled_up(base, given);
        assert forall|name: Seq<char>| result.dom().contains(name) <==> expected.dom().contains(
            name,
        ) by {
            if given.dom().contains(name) {
                let i = choose|i: int| 0 <= i < all.len() && (#[trigger] all[i]).0@ == name;
                assert(all[i].0@ == name);
            }
        }
        assert forall|name: Seq<char>| result.dom().contains(name) implies result[name]
            == expected[name] by {
            if given.dom().contains(name) {
                let i = choose|i: int| 0 <= i < all.len() && (#[trigger] all[i]).0@ == name;
                assert(result[all[i].0@] == all[i].1);
            } else {
                assert forall|i: int| 0 <= i < all.len() implies (#[trigger] all[i]).0@ != name by {
                    assert(given.dom().contains(all[i].0@));
                }
                assert(result[name] == base[name]);
            }
        }
        assert(result =~= expected);
    }
    merged
}

// ── Laws ────────────────────────────────────────────────────────────────────

/// A field that is mentioned has the value it is given; every other field has
/// its default.
pub proof fn law_only_mentioned_fields_change(
    defaults: Map<Seq<char>, serde_json::Value>,
    provided: Map<Seq<char>, serde_json::Value>,
    name: Seq<char>,
)
    requires
        defaults.dom().contains(name),
    ensures
        filled_up(defaults, provided).dom().contains(name),
        filled_up(defaults, provided)[name] == if provided.dom().contains(name) {
            provided[name]
        } else {
            defaults[name]
        },
{
}

/// A section that mentions nothing is the default, and filling up what is
/// filled up already changes nothing.
pub proof fn law_filling_up_is_idempotent(
    defaults: Map<Seq<char>, serde_json::Value>,
    provided: Map<Seq<char>, serde_json::Value>,
)
    ensures
        filled_up(defaults, Map::empty()) == defaults,
        filled_up(filled_up(defaults, provided), provided) == filled_up(defaults, provided),
        filled_up(defaults, filled_up(defaults, provided)) == filled_up(defaults, provided),
{
    assert(filled_up(defaults, Map::empty()) =~= defaults);
    assert(filled_up(filled_up(defaults, provided), provided) =~= filled_up(defaults, provided));
    assert(filled_up(defaults, filled_up(defaults, provided)) =~= filled_up(defaults, provided));
}

} // verus!
