//! What is read from a layout answer, said of the JSON values in it.

use crate::json::{Json, json_decoded, member, num_real};
use crate::pass2::{
    LayoutElementView, LayoutFault, element_in, elements_in, elements_of, fenced, layout_in,
    layout_in_text, layout_message, unfenced, unfencing_undoes_fencing,
};
use crate::text::{starts_with, str_debug, trim};
use vstd::prelude::*;

verus! {

/// Does the value have a list of four numbers under `bbox`?
pub open spec fn has_box(v: Json) -> bool {
    &&& v matches Json::Object(members)
    &&& member(members, "bbox"@) matches Some(Json::Array(c))
    &&& c.len() == 4
    &&& forall|i: int| 0 <= i < 4 ==> (#[trigger] c[i]) is Number
}

/// The corners of a value that has a box.
pub open spec fn corners(v: Json) -> Seq<Json> {
    member(v->Object_0, "bbox"@)->0->Array_0
}

/// Is `n` the value of a JSON number, by its shortest decimal text?
pub open spec fn stands_for(v: Json, n: Seq<char>) -> bool {
    v matches Json::Number(x) && n == num_real(x)->0
}

/// Is `e` what a value with a box describes? Its corners are the four numbers, left,
/// top, right and bottom; its kind is the text under `category`, or unknown without
/// one; its text and its confidence are what stands under these names.
pub open spec fn describes(v: Json, e: LayoutElementView) -> bool {
    let m = v->Object_0;
    &&& stands_for(corners(v)[0], e.x1)
    &&& stands_for(corners(v)[1], e.y1)
    &&& stands_for(corners(v)[2], e.x2)
    &&& stands_for(corners(v)[3], e.y2)
    &&& match member(m, "category"@) {
        Some(Json::Str(s)) => e.kind == s,
        _ => e.kind == "unknown"@,
    }
    &&& match member(m, "text"@) {
        Some(Json::Str(s)) => e.text == Some(s),
        _ => e.text is None,
    }
    &&& match member(m, "confidence"@) {
        Some(Json::Number(x)) => e.confidence == num_real(x),
        _ => e.confidence is None,
    }
}

/// The values that have a box.
pub open spec fn with_box() -> spec_fn(Json) -> bool {
    |v: Json| has_box(v)
}

proof fn one_value(v: Json)
    ensures
        match element_in(v) {
            Some(e) => has_box(v) && describes(v, e),
            None => !has_box(v),
        },
{
    if has_box(v) {
        let c = corners(v);
        assert(c[0] is Number && c[1] is Number && c[2] is Number && c[3] is Number);
    } else if let Some(e) = element_in(v) {
        let c = corners(v);
        assert forall|i: int| 0 <= i < 4 implies (#[trigger] c[i]) is Number by {
            assert(i == 0 || i == 1 || i == 2 || i == 3);
        }
    }
}

/// Every value with a box comes to exactly one element, in the order of the list, and
/// nothing else does.
pub proof fn every_box_is_an_element(items: Seq<Json>)
    ensures
        ({
            let boxed = items.filter(with_box());
            &&& elements_of(items).len() == boxed.len()
            &&& forall|i: int|
                0 <= i < boxed.len() ==> has_box(boxed[i]) && describes(
                    boxed[i],
                    #[trigger] elements_of(items)[i],
                )
        }),
    decreases items.len(),
{
    reveal(Seq::filter);
    if items.len() > 0 {
        every_box_is_an_element(items.drop_last());
        one_value(items.last());
        let before = items.drop_last().filter(with_box());
        let boxed = items.filter(with_box());
        let out = elements_of(items);
        assert forall|i: int| 0 <= i < boxed.len() implies has_box(boxed[i]) && describes(
            boxed[i],
            #[trigger] out[i],
        ) by {
            if i < before.len() {
                assert(boxed[i] == before[i]);
                assert(out[i] == elements_of(items.drop_last())[i]);
            }
        }
    }
}

/// Elements of two lists, one behind the other, are the elements of the first and then
/// those of the second.
pub proof fn elements_of_two_lists(a: Seq<Json>, b: Seq<Json>)
    ensures
        elements_of(a + b) == elements_of(a) + elements_of(b),
    decreases b.len(),
{
    if b.len() == 0 {
        assert(a + b =~= a);
        assert(elements_of(a) + elements_of(b) =~= elements_of(a));
    } else {
        elements_of_two_lists(a, b.drop_last());
        assert((a + b).drop_last() =~= a + b.drop_last());
        assert((a + b).last() == b.last());
        assert(elements_of(a + b) =~= elements_of(a) + elements_of(b));
    }
}

/// Is there a list of this name in an object?
pub open spec fn lists(v: Json, key: Seq<char>, items: Seq<Json>) -> bool {
    &&& v matches Json::Object(members)
    &&& member(members, key) matches Some(Json::Array(found))
    &&& found == items
}

/// The elements are those of the value itself where it is a list, and else of the first
/// list under `layout_elements`, `elements` or `regions`; any other value is refused.
pub proof fn layouts_are_lists(v: Json)
    ensures
        match layout_in(v) {
            Ok(out) => exists|items: Seq<Json>|
                {
                    &&& out == #[trigger] elements_of(items)
                    &&& {
                        ||| v == Json::Array(items)
                        ||| lists(v, "layout_elements"@, items)
                        ||| lists(v, "elements"@, items) && !(exists|o: Seq<Json>| #[trigger]
                            lists(v, "layout_elements"@, o))
                        ||| lists(v, "regions"@, items) && !(exists|o: Seq<Json>| #[trigger]
                            lists(v, "layout_elements"@, o)) && !(exists|o: Seq<Json>| #[trigger]
                            lists(v, "elements"@, o))
                    }
                },
            Err(_) => {
                &&& !(v is Array)
                &&& !(exists|o: Seq<Json>| #[trigger] lists(v, "layout_elements"@, o))
                &&& !(exists|o: Seq<Json>| #[trigger] lists(v, "elements"@, o))
                &&& !(exists|o: Seq<Json>| #[trigger] lists(v, "regions"@, o))
            },
        },
        v matches Json::Array(items) ==> layout_in(v) == Ok::<Seq<LayoutElementView>, LayoutFault>(
            elements_of(items),
        ),
{
    match elements_in(v) {
        Ok(items) => {
            assert(layout_in(v) == Ok::<Seq<LayoutElementView>, LayoutFault>(elements_of(items)));
            if !(v is Array) {
                assert(lists(v, "layout_elements"@, items) || lists(v, "elements"@, items) || lists(
                    v,
                    "regions"@,
                    items,
                ));
            }
        },
        Err(_) => {},
    }
}

/// An answer is read the same whether it stands in a code fence or not, and whatever
/// white space stands around it.
pub proof fn fences_do_not_matter(tag: Seq<char>, body: Seq<char>)
    requires
        !tag.contains('\n'),
        !starts_with(trim(body), "```"@),
    ensures
        layout_in_text(fenced(tag, body)) == layout_in_text(body),
        unfenced(body) == trim(body),
{
    unfencing_undoes_fencing(tag, body);
}

/// An answer that is no JSON is refused with the reason and its beginning; one that is
/// JSON is the layout of that value.
pub proof fn answers_are_read_as_json(raw: Seq<char>)
    ensures
        match json_decoded(unfenced(raw)) {
            Ok(v) => layout_in_text(raw) == layout_in(v),
            Err(why) => layout_in_text(raw) matches Err(LayoutFault::JsonDecode { source, head })
                && source == why && head.is_prefix_of(unfenced(raw)) && (head == unfenced(raw)
                || head.len() == 120),
        },
{
    let s = unfenced(raw);
    if s.len() > 120 {
        assert(s.take(120) =~= s.subrange(0, 120));
    }
}

/// A value without a list of elements is refused under the name of what it is.
pub proof fn refused_values_are_named(v: Json)
    requires
        layout_in(v) is Err,
    ensures
        layout_in(v) matches Err(LayoutFault::UnexpectedShape { kind }) && match v {
            Json::Null => kind == "null"@,
            Json::Bool(_) => kind == "bool"@,
            Json::Number(_) => kind == "number"@,
            Json::Str(_) => kind == "string"@,
            Json::Array(_) => false,
            Json::Object(_) => kind == "object"@,
        },
{
}

/// A message names everything that is known of a refusal.
pub proof fn refusals_say_why(source: Seq<char>, head: Seq<char>, kind: Seq<char>)
    ensures
        layout_message(LayoutFault::JsonDecode { source, head }) == "layout json decode failed: "@
            + source + " (head: "@ + str_debug(head) + ")"@,
        layout_message(LayoutFault::UnexpectedShape { kind })
            == "unexpected layout shape (top level was "@ + kind + ", no element list found)"@,
{
}

} // verus!
