//! The format of the file that a document is kept in, by the names of its nodes
//! and properties: where each part of a document is written, and what each part of
//! a file is read as.

use crate::ids::{uuid_parsed, uuid_text};
use crate::ir::{
    ContentView, DocView, ExtractionView, PageExtractionView, PageMetaView, PageMetricsView,
    PageRefView, StructuredBlockView, StructuredPageView, TocEntryView, with_param,
};
use crate::json::{Json, Num, json_decoded, json_text};
use crate::kdl_laws::{
    block_props_differ, prop_after_push, sibling_nodes_differ, sibling_props_differ,
};
use crate::kdl_model::{
    KdlFault, PageParts, RunParts, block_of, block_tree, collecting, content_tree, doc_in_text,
    doc_of, doc_tree, extraction_of, extraction_tree, fault_message, first_arg, layout_step, metrics_of,
    metrics_tree, page_meta_of, page_meta_tree, page_of, page_ref_of, page_ref_tree, page_step,
    page_tree, param_of, param_step, param_tree, read_extraction, read_float, read_id, read_int,
    read_optional_float, read_optional_int, read_optional_string, read_page, read_page_ref, read_string, read_time,
    read_text_arg, read_toc_entry, run_step, structured_of, text_step, toc_entry_of, toc_entry_tree,
    walk,
};
use crate::kdl_tree::{Entry, Scalar, Tree, kdl_parsed, named, prop_in, scalar_debug};
use crate::number::double_text;
use crate::sorted::{keys_ordered, under_key, with_key_effect, with_key_keeps_order};
use crate::stamp::{rfc3339_parsed, rfc3339_text};
use crate::text::signed_decimal;
use vstd::prelude::*;

verus! {

// ---------------------------------------------------------------------------
// What is written
// ---------------------------------------------------------------------------

/// Is this a node called `name` with `s` as its only argument, and nothing else?
pub open spec fn says(t: Tree, name: Seq<char>, s: Seq<char>) -> bool {
    &&& t.name == name
    &&& t.entries.len() == 1
    &&& t.entries[0] == (Entry { name: None, ty: None, value: Scalar::Str(s) })
    &&& t.children is None
}

/// A block is written with its kind, its box and its confidence under their names,
/// and its text in a child.
pub proof fn blocks_are_written_by_name(b: StructuredBlockView)
    ensures
        ({
            let t = block_tree(b);
            &&& t.name == "block"@
            &&& prop_in(t.entries, "kind"@) == Some(Scalar::Str(b.kind))
            &&& prop_in(t.entries, "x"@) == Some(Scalar::Float(b.bbox.x))
            &&& prop_in(t.entries, "y"@) == Some(Scalar::Float(b.bbox.y))
            &&& prop_in(t.entries, "w"@) == Some(Scalar::Float(b.bbox.w))
            &&& prop_in(t.entries, "h"@) == Some(Scalar::Float(b.bbox.h))
            &&& match b.confidence {
                Some(c) => prop_in(t.entries, "confidence"@) == Some(Scalar::Float(c)),
                None => prop_in(t.entries, "confidence"@) is None,
            }
            &&& match b.text {
                Some(s) => t.children matches Some(c) && c.len() == 1 && says(c[0], "text"@, s),
                None => t.children is None,
            }
        }),
{
    broadcast use prop_after_push;

    block_props_differ();
}

/// What is known of a page is written under the names of the format.
pub proof fn page_metas_are_written_by_name(m: PageMetaView)
    ensures
        ({
            let t = page_meta_tree(m);
            &&& t.name == "page_meta"@
            &&& prop_in(t.entries, "width_pts"@) == Some(Scalar::Float(m.width_pts))
            &&& prop_in(t.entries, "height_pts"@) == Some(Scalar::Float(m.height_pts))
            &&& prop_in(t.entries, "rotation_deg"@) == Some(Scalar::Int(m.rotation_deg as i128))
            &&& match m.dpi {
                Some(n) => prop_in(t.entries, "dpi"@) == Some(Scalar::Int(n as i128)),
                None => prop_in(t.entries, "dpi"@) is None,
            }
        }),
{
    broadcast use prop_after_push;

    sibling_props_differ();
}

/// Metrics are written under the names of the format.
pub proof fn metrics_are_written_by_name(m: PageMetricsView)
    ensures
        ({
            let t = metrics_tree(m);
            &&& t.name == "metrics"@
            &&& prop_in(t.entries, "elapsed_secs"@) == Some(Scalar::Float(m.elapsed_secs))
            &&& match m.input_tokens {
                Some(n) => prop_in(t.entries, "input_tokens"@) == Some(Scalar::Int(n as i128)),
                None => prop_in(t.entries, "input_tokens"@) is None,
            }
            &&& match m.output_tokens {
                Some(n) => prop_in(t.entries, "output_tokens"@) == Some(Scalar::Int(n as i128)),
                None => prop_in(t.entries, "output_tokens"@) is None,
            }
        }),
{
    broadcast use prop_after_push;

    sibling_props_differ();
}

/// The content of a page is written as the node of its kind: a Markdown text as an
/// argument, a layout as what is known of the page and then the blocks in their
/// order, an error by its kind and its message.
pub proof fn contents_are_written_by_name(c: ContentView)
    ensures
        ({
            let t = content_tree(c);
            match c {
                ContentView::Markdown(s) => says(t, "markdown"@, s),
                ContentView::Structured(p) => {
                    let first: int = if p.page_meta is Some { 1 } else { 0 };
                    &&& t.name == "structured"@
                    &&& t.children matches Some(nodes) && {
                        &&& nodes.len() == first + p.blocks.len()
                        &&& p.page_meta matches Some(m) ==> nodes[0] == page_meta_tree(m)
                        &&& forall|i: int|
                            0 <= i < p.blocks.len() ==> #[trigger] nodes[first + i] == block_tree(
                                p.blocks[i],
                            )
                    }
                },
                ContentView::Error(e) => {
                    &&& t.name == "error"@
                    &&& prop_in(t.entries, "kind"@) == Some(Scalar::Str(e.kind))
                    &&& prop_in(t.entries, "message"@) == Some(Scalar::Str(e.message))
                },
            }
        }),
{
    broadcast use prop_after_push;

    sibling_props_differ();
}

/// A page record is written with its page number and its identities under their
/// names, its content in the first child and its metrics in the second.
pub proof fn pages_are_written_by_name(p: PageExtractionView)
    ensures
        ({
            let t = page_tree(p);
            &&& t.name == "page"@
            &&& prop_in(t.entries, "page"@) == Some(Scalar::Int(p.page as i128))
            &&& prop_in(t.entries, "page_uuid"@) == Some(Scalar::Str(uuid_text(p.page_uuid.0)))
            &&& prop_in(t.entries, "extraction_uuid"@) == Some(
                Scalar::Str(uuid_text(p.extraction_uuid.0)),
            )
            &&& t.children matches Some(nodes) && {
                &&& nodes.len() == (if p.metrics is Some { 2int } else { 1 })
                &&& nodes[0] == content_tree(p.content)
                &&& p.metrics matches Some(m) ==> nodes[1] == metrics_tree(m)
            }
        }),
{
    broadcast use prop_after_push;

    sibling_props_differ();
}

/// A page reference is written under the names of the format.
pub proof fn page_refs_are_written_by_name(r: PageRefView)
    ensures
        ({
            let t = page_ref_tree(r);
            &&& t.name == "page_ref"@
            &&& prop_in(t.entries, "page"@) == Some(Scalar::Int(r.page as i128))
            &&& prop_in(t.entries, "model"@) == Some(Scalar::Str(r.model))
            &&& prop_in(t.entries, "page_uuid"@) == Some(Scalar::Str(uuid_text(r.page_uuid.0)))
            &&& prop_in(t.entries, "extraction_uuid"@) == Some(
                Scalar::Str(uuid_text(r.extraction_uuid.0)),
            )
        }),
{
    broadcast use prop_after_push;

    sibling_props_differ();
}

/// An entry of the table of contents is written under the names of the format, with
/// its page references as children in their order.
pub proof fn entries_are_written_by_name(e: TocEntryView)
    ensures
        ({
            let t = toc_entry_tree(e);
            &&& t.name == "entry"@
            &&& prop_in(t.entries, "id"@) == Some(Scalar::Str(uuid_text(e.id.0)))
            &&& prop_in(t.entries, "title"@) == Some(Scalar::Str(e.title))
            &&& prop_in(t.entries, "level"@) == Some(Scalar::Int(e.level as i128))
            &&& match e.parent {
                Some(id) => prop_in(t.entries, "parent"@) == Some(Scalar::Str(uuid_text(id.0))),
                None => prop_in(t.entries, "parent"@) is None,
            }
            &&& prop_in(t.entries, "built_by"@) == Some(Scalar::Str(uuid_text(e.built_by.0)))
            &&& t.children matches Some(nodes) && {
                &&& nodes.len() == e.page_refs.len()
                &&& forall|i: int|
                    0 <= i < nodes.len() ==> #[trigger] nodes[i] == page_ref_tree(e.page_refs[i])
            }
        }),
{
    broadcast use prop_after_push;

    sibling_props_differ();
}

/// A parameter is written as a node of its name with its value: a list or an object
/// as JSON text under the type `json`, anything else as the KDL value that it is.
pub proof fn params_are_written_by_name(key: Seq<char>, v: Json)
    ensures
        ({
            let t = param_tree((key, v));
            &&& t.name == key
            &&& t.entries.len() == 1
            &&& t.entries[0].name is None
            &&& t.children is None
            &&& match v {
                Json::Null => t.entries[0].value is Null && t.entries[0].ty is None,
                Json::Bool(b) => t.entries[0].value == Scalar::Bool(b) && t.entries[0].ty is None,
                Json::Str(s) => t.entries[0].value == Scalar::Str(s) && t.entries[0].ty is None,
                Json::Number(Num::Pos(u)) => t.entries[0].value == Scalar::Int(u as i128)
                    && t.entries[0].ty is None,
                Json::Number(Num::Neg(i)) => t.entries[0].value == Scalar::Int(i as i128)
                    && t.entries[0].ty is None,
                Json::Number(Num::Float(x)) => t.entries[0].value == Scalar::Float(x)
                    && t.entries[0].ty is None,
                Json::Array(_) => t.entries[0].value == Scalar::Str(json_text(v))
                    && t.entries[0].ty == Some("json"@),
                Json::Object(_) => t.entries[0].value == Scalar::Str(json_text(v))
                    && t.entries[0].ty == Some("json"@),
            }
        }),
{
}

/// A run is written with its identity, model and time under their names, its prompt
/// in the first child and its parameters, if it has any, in the second.
pub proof fn runs_are_written_by_name(e: ExtractionView)
    ensures
        ({
            let t = extraction_tree(e);
            &&& t.name == "extraction"@
            &&& prop_in(t.entries, "uuid"@) == Some(Scalar::Str(uuid_text(e.uuid.0)))
            &&& prop_in(t.entries, "model"@) == Some(Scalar::Str(e.model))
            &&& prop_in(t.entries, "created_at"@) == Some(
                Scalar::Str(rfc3339_text(e.created_at.0, e.created_at.1)),
            )
            &&& t.children matches Some(nodes) && {
                &&& nodes.len() == (if e.params.len() > 0 { 2int } else { 1 })
                &&& says(nodes[0], "prompt"@, e.prompt)
                &&& e.params.len() > 0 ==> {
                    &&& nodes[1].name == "params"@
                    &&& nodes[1].children matches Some(list) && {
                        &&& list.len() == e.params.len()
                        &&& forall|i: int|
                            0 <= i < list.len() ==> #[trigger] list[i] == param_tree(e.params[i])
                    }
                }
            }
        }),
{
    broadcast use prop_after_push;

    sibling_props_differ();
}

/// A document is written with its version and the hash of its PDF under their names,
/// and with three lists: its runs, its page records and its entries, each in its
/// order.
pub proof fn documents_are_written_by_name(d: DocView)
    ensures
        ({
            let t = doc_tree(d);
            &&& t.name == "doc"@
            &&& prop_in(t.entries, "schema_version"@) == Some(
                Scalar::Int(d.schema_version as i128),
            )
            &&& prop_in(t.entries, "content_hash"@) == Some(Scalar::Str(d.content_hash))
            &&& t.children matches Some(nodes) && {
                &&& nodes.len() == 3
                &&& nodes[0].name == "extractions"@
                &&& nodes[1].name == "extracted_pages"@
                &&& nodes[2].name == "toc"@
                &&& nodes[0].children matches Some(list) && {
                    &&& list.len() == d.extractions.len()
                    &&& forall|i: int|
                        0 <= i < list.len() ==> #[trigger] list[i] == extraction_tree(
                            d.extractions[i],
                        )
                }
                &&& nodes[1].children matches Some(list) && {
                    &&& list.len() == d.extracted_pages.len()
                    &&& forall|i: int|
                        0 <= i < list.len() ==> #[trigger] list[i] == page_tree(
                            d.extracted_pages[i],
                        )
                }
                &&& nodes[2].children matches Some(list) && {
                    &&& list.len() == d.toc.len()
                    &&& forall|i: int|
                        0 <= i < list.len() ==> #[trigger] list[i] == toc_entry_tree(d.toc[i])
                }
            }
        }),
{
    broadcast use prop_after_push;

    sibling_props_differ();
}

// ---------------------------------------------------------------------------
// What is read
// ---------------------------------------------------------------------------

/// Is `text` the number that a value is? A whole number stands for the fractional
/// number nearest to it.
pub open spec fn is_number(v: Option<Scalar>, text: Seq<char>) -> bool {
    match v {
        Some(Scalar::Float(t)) => text == t,
        Some(Scalar::Int(i)) => text == double_text(signed_decimal(i as int))->0,
        _ => false,
    }
}

/// Is the value a number?
pub open spec fn numeric(v: Option<Scalar>) -> bool {
    v matches Some(s) && (s is Float || s is Int)
}

/// Is the value a text that names this identity?
pub open spec fn is_id(v: Option<Scalar>, id: u128) -> bool {
    v matches Some(Scalar::Str(s)) && uuid_parsed(s) == Ok::<u128, Seq<char>>(id)
}

/// The nodes called `name`.
pub open spec fn called(name: Seq<char>) -> spec_fn(Tree) -> bool {
    |t: Tree| t.name == name
}

/// The children of a node; a node without a block has none.
pub open spec fn inside(t: Tree) -> Seq<Tree> {
    if t.children is Some {
        t.children->0
    } else {
        Seq::empty()
    }
}

/// Filtering from the front.
proof fn filter_from_the_front(nodes: Seq<Tree>, name: Seq<char>)
    requires
        nodes.len() > 0,
    ensures
        nodes.filter(called(name)) == (if nodes[0].name == name {
            seq![nodes[0]] + nodes.drop_first().filter(called(name))
        } else {
            nodes.drop_first().filter(called(name))
        }),
        Seq::<Tree>::empty().filter(called(name)) == Seq::<Tree>::empty(),
{
    let head = seq![nodes[0]];
    reveal(Seq::filter);
    reveal_with_fuel(Seq::filter, 3);
    assert(head.drop_last() =~= Seq::<Tree>::empty());
    assert(head.last() == nodes[0]);
    assert(nodes =~= head + nodes.drop_first());
    Seq::filter_distributes_over_add(head, nodes.drop_first(), called(name));
    if nodes[0].name == name {
        assert(head.filter(called(name)) =~= head);
    } else {
        assert(head.filter(called(name)) =~= Seq::<Tree>::empty());
        assert(Seq::<Tree>::empty() + nodes.drop_first().filter(called(name))
            =~= nodes.drop_first().filter(called(name)));
    }
}

/// Collecting takes every node of the name, in order, and fails where one of them
/// does.
proof fn collecting_takes_all<T>(
    nodes: Seq<Tree>,
    done: Seq<T>,
    name: Seq<char>,
    read: spec_fn(Tree) -> Result<T, KdlFault>,
)
    ensures
        ({
            let found = nodes.filter(called(name));
            match walk(nodes, done, collecting(name, read)) {
                Ok(out) => {
                    &&& out.len() == done.len() + found.len()
                    &&& forall|i: int| 0 <= i < done.len() ==> #[trigger] out[i] == done[i]
                    &&& forall|i: int|
                        0 <= i < found.len() ==> read(#[trigger] found[i]) == Ok::<T, KdlFault>(
                            out[done.len() + i],
                        )
                },
                Err(e) => exists|i: int|
                    0 <= i < found.len() && read(#[trigger] found[i]) == Err::<T, KdlFault>(e),
            }
        }),
    decreases nodes.len(),
{
    let found = nodes.filter(called(name));
    if nodes.len() == 0 {
        reveal(Seq::filter);
    } else {
        filter_from_the_front(nodes, name);
        let rest = nodes.drop_first();
        let later = rest.filter(called(name));
        if nodes[0].name == name {
            assert(found[0] == nodes[0]);
            match read(nodes[0]) {
                Ok(v) => {
                    collecting_takes_all(rest, done.push(v), name, read);
                    match walk(rest, done.push(v), collecting(name, read)) {
                        Ok(out) => {
                            assert(out[done.len() as int] == done.push(v)[done.len() as int]);
                            assert forall|i: int| 0 <= i < found.len() implies read(
                                #[trigger] found[i],
                            ) == Ok::<T, KdlFault>(out[done.len() + i]) by {
                                if i > 0 {
                                    assert(found[i] == later[i - 1]);
                                }
                            }
                            assert forall|i: int| 0 <= i < done.len() implies #[trigger] out[i]
                                == done[i] by {
                                assert(out[i] == done.push(v)[i]);
                            }
                        },
                        Err(e) => {
                            let k = choose|k: int|
                                0 <= k < later.len() && read(#[trigger] later[k]) == Err::<
                                    T,
                                    KdlFault,
                                >(e);
                            assert(found[k + 1] == later[k]);
                        },
                    }
                },
                Err(e) => {},
            }
        } else {
            collecting_takes_all(rest, done, name, read);
        }
    }
}

/// A block is read by the names of its properties: it needs a kind and the four
/// numbers of its box.
pub proof fn blocks_are_read_by_name(t: Tree)
    ensures
        match block_of(t) {
            Ok(b) => {
                &&& prop_in(t.entries, "kind"@) == Some(Scalar::Str(b.kind))
                &&& is_number(prop_in(t.entries, "x"@), b.bbox.x)
                &&& is_number(prop_in(t.entries, "y"@), b.bbox.y)
                &&& is_number(prop_in(t.entries, "w"@), b.bbox.w)
                &&& is_number(prop_in(t.entries, "h"@), b.bbox.h)
                &&& match b.confidence {
                    Some(c) => is_number(prop_in(t.entries, "confidence"@), c),
                    None => prop_in(t.entries, "confidence"@) is None,
                }
                &&& is_last_text(inside(t).filter(called("text"@)), b.text)
            },
            Err(_) => {
                ||| !(prop_in(t.entries, "kind"@) matches Some(Scalar::Str(_)))
                ||| !numeric(prop_in(t.entries, "x"@))
                ||| !numeric(prop_in(t.entries, "y"@))
                ||| !numeric(prop_in(t.entries, "w"@))
                ||| !numeric(prop_in(t.entries, "h"@))
                ||| (prop_in(t.entries, "confidence"@) is Some && !numeric(
                    prop_in(t.entries, "confidence"@),
                ))
                ||| exists|i: int|
                    0 <= i < inside(t).filter(called("text"@)).len() && !holds_text(
                        #[trigger] inside(t).filter(called("text"@))[i],
                    )
            },
        },
{
    text_is_the_last(inside(t), None);
}

/// Is entry `k` the first argument of the node?
pub open spec fn first_argument(t: Tree, k: int) -> bool {
    &&& 0 <= k < t.entries.len()
    &&& t.entries[k].name is None
    &&& forall|j: int| 0 <= j < k ==> (#[trigger] t.entries[j]).name is Some
}

/// Is `s` the first argument of the node?
pub open spec fn argument_is(t: Tree, s: Seq<char>) -> bool {
    exists|k: int| #[trigger] first_argument(t, k) && t.entries[k].value == Scalar::Str(s)
}

/// Is the first argument of the node a text?
pub open spec fn holds_text(t: Tree) -> bool {
    exists|s: Seq<char>| #[trigger] argument_is(t, s)
}

/// Is `text` what the last of the nodes says, and nothing where there is none?
pub open spec fn is_last_text(nodes: Seq<Tree>, text: Option<Seq<char>>) -> bool {
    match text {
        Some(s) => nodes.len() > 0 && argument_is(nodes.last(), s),
        None => nodes.len() == 0,
    }
}

proof fn first_argument_from(t: Tree, at: int)
    requires
        0 <= at <= t.entries.len(),
        forall|j: int| 0 <= j < at ==> (#[trigger] t.entries[j]).name is Some,
    ensures
        match first_arg(t.entries.skip(at)) {
            Some(e) => exists|k: int| #[trigger] first_argument(t, k) && t.entries[k] == e,
            None => forall|j: int| 0 <= j < t.entries.len() ==> (#[trigger] t.entries[j]).name is Some,
        },
    decreases t.entries.len() - at,
{
    let rest = t.entries.skip(at);
    if at < t.entries.len() {
        assert(rest[0] == t.entries[at]);
        if t.entries[at].name is None {
            assert(first_argument(t, at));
        } else {
            assert(rest.drop_first() =~= t.entries.skip(at + 1));
            first_argument_from(t, at + 1);
        }
    }
}

/// A text argument is the first argument of its node, whatever properties stand
/// before it.
pub proof fn arguments_are_read_in_order(t: Tree, node: Seq<char>)
    ensures
        match read_text_arg(t, node) {
            Ok(s) => argument_is(t, s),
            Err(_) => !holds_text(t),
        },
{
    assert(t.entries.skip(0) =~= t.entries);
    first_argument_from(t, 0);
    if let Err(e) = read_text_arg(t, node) {
        if holds_text(t) {
            let s = choose|s: Seq<char>| #[trigger] argument_is(t, s);
            let k = choose|k: int| #[trigger]
                first_argument(t, k) && t.entries[k].value == Scalar::Str(s);
            assert(t.entries[k].name is None);
            let m = choose|m: int| #[trigger]
                first_argument(t, m) && t.entries[m] == first_arg(t.entries)->0;
            if m < k {
                assert(t.entries[m].name is Some);
            } else if k < m {
                assert(t.entries[k].name is Some);
            }
        }
    }
}

/// Of the children called `text` the last one counts.
proof fn text_is_the_last(nodes: Seq<Tree>, found: Option<Seq<char>>)
    ensures
        ({
            let list = nodes.filter(called("text"@));
            match walk(nodes, found, text_step()) {
                Ok(out) => if list.len() == 0 {
                    out == found
                } else {
                    out matches Some(s) && argument_is(list.last(), s)
                },
                Err(_) => exists|i: int| 0 <= i < list.len() && !holds_text(#[trigger] list[i]),
            }
        }),
    decreases nodes.len(),
{
    if nodes.len() == 0 {
        reveal(Seq::filter);
    } else {
        filter_from_the_front(nodes, "text"@);
        let list = nodes.filter(called("text"@));
        let rest = nodes.drop_first();
        let later = rest.filter(called("text"@));
        if nodes[0].name == "text"@ {
            assert(list[0] == nodes[0]);
            arguments_are_read_in_order(nodes[0], "text"@);
            match read_text_arg(nodes[0], "text"@) {
                Ok(s) => {
                    text_is_the_last(rest, Some(s));
                    if let Err(e) = walk(rest, Some(s), text_step()) {
                        let k = choose|k: int|
                            0 <= k < later.len() && !holds_text(#[trigger] later[k]);
                        assert(list[k + 1] == later[k]);
                    } else if later.len() > 0 {
                        assert(list.last() == later.last());
                    } else {
                        assert(list.last() == nodes[0]);
                    }
                },
                Err(e) => {
                    assert(!holds_text(list[0]));
                },
            }
        } else {
            text_is_the_last(rest, found);
        }
    }
}

/// What is known of a page is read by the names of its properties.
pub proof fn page_metas_are_read_by_name(t: Tree)
    ensures
        match page_meta_of(t) {
            Ok(m) => {
                &&& is_number(prop_in(t.entries, "width_pts"@), m.width_pts)
                &&& is_number(prop_in(t.entries, "height_pts"@), m.height_pts)
                &&& prop_in(t.entries, "rotation_deg"@) matches Some(Scalar::Int(i))
                    && m.rotation_deg == i as u16
                &&& match m.dpi {
                    Some(n) => prop_in(t.entries, "dpi"@) matches Some(Scalar::Int(i)) && n
                        == i as u16,
                    None => prop_in(t.entries, "dpi"@) is None,
                }
            },
            Err(_) => {
                ||| !numeric(prop_in(t.entries, "width_pts"@))
                ||| !numeric(prop_in(t.entries, "height_pts"@))
                ||| !(prop_in(t.entries, "rotation_deg"@) matches Some(Scalar::Int(_)))
                ||| prop_in(t.entries, "dpi"@) matches Some(v) && !(v is Int)
            },
        },
{
}

/// Metrics are read by the names of their properties.
pub proof fn metrics_are_read_by_name(t: Tree)
    ensures
        match metrics_of(t) {
            Ok(m) => {
                &&& is_number(prop_in(t.entries, "elapsed_secs"@), m.elapsed_secs)
                &&& match m.input_tokens {
                    Some(n) => prop_in(t.entries, "input_tokens"@) matches Some(Scalar::Int(i))
                        && n == i as u32,
                    None => prop_in(t.entries, "input_tokens"@) is None,
                }
                &&& match m.output_tokens {
                    Some(n) => prop_in(t.entries, "output_tokens"@) matches Some(Scalar::Int(i))
                        && n == i as u32,
                    None => prop_in(t.entries, "output_tokens"@) is None,
                }
            },
            Err(_) => {
                ||| !numeric(prop_in(t.entries, "elapsed_secs"@))
                ||| prop_in(t.entries, "input_tokens"@) matches Some(v) && !(v is Int)
                ||| prop_in(t.entries, "output_tokens"@) matches Some(v) && !(v is Int)
            },
        },
{
}

/// A page reference is read by the names of its properties.
pub proof fn page_refs_are_read_by_name(t: Tree)
    ensures
        match page_ref_of(t) {
            Ok(r) => {
                &&& prop_in(t.entries, "page"@) matches Some(Scalar::Int(i)) && r.page == i as u32
                &&& prop_in(t.entries, "model"@) == Some(Scalar::Str(r.model))
                &&& is_id(prop_in(t.entries, "page_uuid"@), r.page_uuid.0)
                &&& is_id(prop_in(t.entries, "extraction_uuid"@), r.extraction_uuid.0)
            },
            Err(_) => {
                ||| !(prop_in(t.entries, "page"@) matches Some(Scalar::Int(_)))
                ||| !(prop_in(t.entries, "model"@) matches Some(Scalar::Str(_)))
                ||| !names_an_id(prop_in(t.entries, "page_uuid"@))
                ||| !names_an_id(prop_in(t.entries, "extraction_uuid"@))
            },
        },
{
}

/// Is the value a text that names an identity?
pub open spec fn names_an_id(v: Option<Scalar>) -> bool {
    v matches Some(Scalar::Str(s)) && uuid_parsed(s) is Ok
}

/// An entry of the table of contents is read by the names of its properties, and its
/// page references from its children of that name, each of them, in their order.
pub proof fn entries_are_read_by_name(t: Tree)
    ensures
        ({
            let refs = inside(t).filter(called("page_ref"@));
            match toc_entry_of(t) {
                Ok(e) => {
                    &&& is_id(prop_in(t.entries, "id"@), e.id.0)
                    &&& prop_in(t.entries, "title"@) == Some(Scalar::Str(e.title))
                    &&& prop_in(t.entries, "level"@) matches Some(Scalar::Int(i)) && e.level
                        == i as u8
                    &&& match e.parent {
                        Some(id) => is_id(prop_in(t.entries, "parent"@), id.0),
                        None => prop_in(t.entries, "parent"@) is None,
                    }
                    &&& is_id(prop_in(t.entries, "built_by"@), e.built_by.0)
                    &&& e.page_refs.len() == refs.len()
                    &&& forall|i: int|
                        0 <= i < refs.len() ==> page_ref_of(#[trigger] refs[i]) == Ok::<
                            PageRefView,
                            KdlFault,
                        >(e.page_refs[i])
                },
                Err(_) => {
                    ||| !names_an_id(prop_in(t.entries, "id"@))
                    ||| !(prop_in(t.entries, "title"@) matches Some(Scalar::Str(_)))
                    ||| !(prop_in(t.entries, "level"@) matches Some(Scalar::Int(_)))
                    ||| prop_in(t.entries, "parent"@) is Some && !names_an_id(
                        prop_in(t.entries, "parent"@),
                    )
                    ||| !names_an_id(prop_in(t.entries, "built_by"@))
                    ||| exists|i: int|
                        0 <= i < refs.len() && page_ref_of(#[trigger] refs[i]) is Err
                },
            }
        }),
{
    collecting_takes_all(inside(t), Seq::empty(), "page_ref"@, read_page_ref());
    let refs = inside(t).filter(called("page_ref"@));
    if let Ok(e) = toc_entry_of(t) {
        assert forall|i: int| 0 <= i < refs.len() implies page_ref_of(#[trigger] refs[i]) == Ok::<
            PageRefView,
            KdlFault,
        >(e.page_refs[i]) by {
            assert(read_page_ref()(refs[i]) == Ok::<PageRefView, KdlFault>(e.page_refs[0 + i]));
        }
    } else {
        if exists|i: int| 0 <= i < refs.len() && read_page_ref()(#[trigger] refs[i]) is Err {
            let i = choose|i: int| 0 <= i < refs.len() && read_page_ref()(#[trigger] refs[i]) is Err;
            assert(page_ref_of(refs[i]) is Err);
        }
    }
}

/// A layout is read from the children of its node: every block, in their order, and
/// what the last of the nodes about the page says.
pub proof fn layouts_are_read_in_full(t: Tree)
    ensures
        ({
            let blocks = inside(t).filter(called("block"@));
            let metas = inside(t).filter(called("page_meta"@));
            match structured_of(t) {
                Ok(p) => {
                    &&& p.blocks.len() == blocks.len()
                    &&& forall|i: int|
                        0 <= i < blocks.len() ==> block_of(#[trigger] blocks[i]) == Ok::<
                            StructuredBlockView,
                            KdlFault,
                        >(p.blocks[i])
                    &&& match p.page_meta {
                        Some(m) => metas.len() > 0 && page_meta_of(metas.last()) == Ok::<
                            PageMetaView,
                            KdlFault,
                        >(m),
                        None => metas.len() == 0,
                    }
                },
                Err(_) => {
                    ||| exists|i: int| 0 <= i < blocks.len() && block_of(#[trigger] blocks[i]) is Err
                    ||| exists|i: int|
                        0 <= i < metas.len() && page_meta_of(#[trigger] metas[i]) is Err
                },
            }
        }),
{
    layout_walk(
        inside(t),
        StructuredPageView { blocks: Seq::empty(), page_meta: None },
    );
    if let Ok(p) = structured_of(t) {
        let blocks = inside(t).filter(called("block"@));
        assert forall|i: int| 0 <= i < blocks.len() implies block_of(#[trigger] blocks[i]) == Ok::<
            StructuredBlockView,
            KdlFault,
        >(p.blocks[i]) by {
            assert(p.blocks[0 + i] == p.blocks[i]);
        }
    }
}

proof fn layout_walk(nodes: Seq<Tree>, start: StructuredPageView)
    ensures
        ({
            let blocks = nodes.filter(called("block"@));
            let metas = nodes.filter(called("page_meta"@));
            let n = start.blocks.len();
            match walk(nodes, start, layout_step()) {
                Ok(p) => {
                    &&& p.blocks.len() == n + blocks.len()
                    &&& forall|i: int| 0 <= i < n ==> #[trigger] p.blocks[i] == start.blocks[i]
                    &&& forall|i: int|
                        0 <= i < blocks.len() ==> block_of(#[trigger] blocks[i]) == Ok::<
                            StructuredBlockView,
                            KdlFault,
                        >(p.blocks[n + i])
                    &&& if metas.len() == 0 {
                        p.page_meta == start.page_meta
                    } else {
                        p.page_meta matches Some(m) && page_meta_of(metas.last()) == Ok::<
                            PageMetaView,
                            KdlFault,
                        >(m)
                    }
                },
                Err(_) => {
                    ||| exists|i: int| 0 <= i < blocks.len() && block_of(#[trigger] blocks[i]) is Err
                    ||| exists|i: int|
                        0 <= i < metas.len() && page_meta_of(#[trigger] metas[i]) is Err
                },
            }
        }),
    decreases nodes.len(),
{
    sibling_nodes_differ();
    let blocks = nodes.filter(called("block"@));
    let metas = nodes.filter(called("page_meta"@));
    let n = start.blocks.len() as int;
    if nodes.len() == 0 {
        reveal(Seq::filter);
    } else {
        filter_from_the_front(nodes, "block"@);
        filter_from_the_front(nodes, "page_meta"@);
        let rest = nodes.drop_first();
        let later = rest.filter(called("block"@));
        let later_metas = rest.filter(called("page_meta"@));
        if nodes[0].name == "page_meta"@ {
            assert(metas[0] == nodes[0]);
            if let Ok(m) = page_meta_of(nodes[0]) {
                layout_walk(rest, StructuredPageView { page_meta: Some(m), ..start });
                if later_metas.len() > 0 {
                    assert(metas.last() == later_metas.last());
                } else {
                    assert(metas.last() == nodes[0]);
                }
                if exists|k: int|
                    0 <= k < later_metas.len() && page_meta_of(#[trigger] later_metas[k]) is Err {
                    let k = choose|k: int|
                        0 <= k < later_metas.len() && page_meta_of(#[trigger] later_metas[k]) is Err;
                    assert(metas[k + 1] == later_metas[k]);
                }
            }
        } else if nodes[0].name == "block"@ {
            assert(blocks[0] == nodes[0]);
            if let Ok(b) = block_of(nodes[0]) {
                let next = StructuredPageView { blocks: start.blocks.push(b), ..start };
                layout_walk(rest, next);
                match walk(rest, next, layout_step()) {
                    Ok(p) => {
                        assert(p.blocks[n] == next.blocks[n]);
                        assert forall|i: int| 0 <= i < n implies #[trigger] p.blocks[i]
                            == start.blocks[i] by {
                            assert(p.blocks[i] == next.blocks[i]);
                        }
                        assert forall|i: int| 0 <= i < blocks.len() implies block_of(
                            #[trigger] blocks[i],
                        ) == Ok::<StructuredBlockView, KdlFault>(p.blocks[n + i]) by {
                            if i > 0 {
                                assert(blocks[i] == later[i - 1]);
                            }
                        }
                    },
                    Err(_) => {
                        if exists|k: int|
                            0 <= k < later.len() && block_of(#[trigger] later[k]) is Err {
                            let k = choose|k: int|
                                0 <= k < later.len() && block_of(#[trigger] later[k]) is Err;
                            assert(blocks[k + 1] == later[k]);
                        }
                    },
                }
            }
        } else {
            layout_walk(rest, start);
        }
    }
}

/// The nodes that are not called `name`.
pub open spec fn not_called(name: Seq<char>) -> spec_fn(Tree) -> bool {
    |t: Tree| t.name != name
}

/// Is `c` what a node says about the content of a page?
pub open spec fn is_content(t: Tree, c: ContentView) -> bool {
    match c {
        ContentView::Markdown(s) => t.name == "markdown"@ && argument_is(t, s),
        ContentView::Structured(p) => t.name == "structured"@ && structured_of(t) == Ok::<
            StructuredPageView,
            KdlFault,
        >(p),
        ContentView::Error(e) => {
            &&& t.name == "error"@
            &&& prop_in(t.entries, "kind"@) == Some(Scalar::Str(e.kind))
            &&& prop_in(t.entries, "message"@) == Some(Scalar::Str(e.message))
        },
    }
}

proof fn rest_from_the_front(nodes: Seq<Tree>, name: Seq<char>)
    requires
        nodes.len() > 0,
    ensures
        nodes.filter(not_called(name)) == (if nodes[0].name != name {
            seq![nodes[0]] + nodes.drop_first().filter(not_called(name))
        } else {
            nodes.drop_first().filter(not_called(name))
        }),
{
    let head = seq![nodes[0]];
    reveal(Seq::filter);
    reveal_with_fuel(Seq::filter, 3);
    assert(head.drop_last() =~= Seq::<Tree>::empty());
    assert(head.last() == nodes[0]);
    assert(nodes =~= head + nodes.drop_first());
    Seq::filter_distributes_over_add(head, nodes.drop_first(), not_called(name));
    if nodes[0].name != name {
        assert(head.filter(not_called(name)) =~= head);
    } else {
        assert(head.filter(not_called(name)) =~= Seq::<Tree>::empty());
        assert(Seq::<Tree>::empty() + nodes.drop_first().filter(not_called(name))
            =~= nodes.drop_first().filter(not_called(name)));
    }
}

proof fn page_walk(nodes: Seq<Tree>, start: PageParts)
    ensures
        ({
            let contents = nodes.filter(not_called("metrics"@));
            let metrics = nodes.filter(called("metrics"@));
            walk(nodes, start, page_step()) matches Ok(p) ==> {
                &&& if contents.len() == 0 {
                    p.content == start.content
                } else {
                    p.content matches Some(c) && is_content(contents.last(), c)
                }
                &&& if metrics.len() == 0 {
                    p.metrics == start.metrics
                } else {
                    p.metrics matches Some(m) && metrics_of(metrics.last()) == Ok::<
                        PageMetricsView,
                        KdlFault,
                    >(m)
                }
                &&& forall|i: int|
                    0 <= i < contents.len() ==> is_content_name((#[trigger] contents[i]).name)
            }
        }),
    decreases nodes.len(),
{
    sibling_nodes_differ();
    if nodes.len() == 0 {
        reveal(Seq::filter);
    } else {
        let first = nodes[0];
        let rest = nodes.drop_first();
        let contents = nodes.filter(not_called("metrics"@));
        let metrics = nodes.filter(called("metrics"@));
        let later = rest.filter(not_called("metrics"@));
        let later_metrics = rest.filter(called("metrics"@));
        filter_from_the_front(nodes, "metrics"@);
        rest_from_the_front(nodes, "metrics"@);
        arguments_are_read_in_order(first, "markdown"@);
        match page_step()(start, first) {
            Ok(next) => {
                page_walk(rest, next);
                if first.name == "metrics"@ {
                    if later_metrics.len() > 0 {
                        assert(metrics.last() == later_metrics.last());
                    } else {
                        assert(metrics.last() == first);
                    }
                } else {
                    assert(contents[0] == first);
                    assert(is_content(first, next.content->0));
                    if later.len() > 0 {
                        assert(contents.last() == later.last());
                    } else {
                        assert(contents.last() == first);
                    }
                    if walk(rest, next, page_step()) is Ok {
                        assert forall|i: int| 0 <= i < contents.len() implies is_content_name(
                            (#[trigger] contents[i]).name,
                        ) by {
                            if i > 0 {
                                assert(contents[i] == later[i - 1]);
                            }
                        }
                    }
                }
            },
            Err(_) => {},
        }
    }
}

/// Is this the name of a node that holds the content of a page?
pub open spec fn is_content_name(name: Seq<char>) -> bool {
    name == "markdown"@ || name == "structured"@ || name == "error"@
}

/// A page record is read by the names of its properties. Its content is what the last
/// node about it says, its metrics are those of the last node called so, and there is
/// no child of another name.
pub proof fn pages_are_read_by_name(t: Tree)
    ensures
        ({
            let contents = inside(t).filter(not_called("metrics"@));
            let metrics = inside(t).filter(called("metrics"@));
            page_of(t) matches Ok(p) ==> {
                &&& prop_in(t.entries, "page"@) matches Some(Scalar::Int(i)) && p.page == i as u32
                &&& is_id(prop_in(t.entries, "page_uuid"@), p.page_uuid.0)
                &&& is_id(prop_in(t.entries, "extraction_uuid"@), p.extraction_uuid.0)
                &&& contents.len() > 0 && is_content(contents.last(), p.content)
                &&& match p.metrics {
                    Some(m) => metrics.len() > 0 && metrics_of(metrics.last()) == Ok::<
                        PageMetricsView,
                        KdlFault,
                    >(m),
                    None => metrics.len() == 0,
                }
                &&& forall|i: int|
                    0 <= i < contents.len() ==> is_content_name((#[trigger] contents[i]).name)
            }
        }),
{
    page_walk(inside(t), PageParts { content: None, metrics: None });
}

/// A page with one node for its content, and at most one for its metrics, is read
/// where both and the identities can be.
pub proof fn plain_pages_are_read(t: Tree, content: Tree, metrics: Option<Tree>)
    requires
        t.children == Some(
            seq![content] + (match metrics {
                Some(m) => seq![m],
                None => Seq::empty(),
            }),
        ),
        prop_in(t.entries, "page"@) matches Some(Scalar::Int(_)),
        names_an_id(prop_in(t.entries, "page_uuid"@)),
        names_an_id(prop_in(t.entries, "extraction_uuid"@)),
        metrics matches Some(m) ==> m.name == "metrics"@ && metrics_of(m) is Ok,
        is_content_name(content.name),
        content.name == "markdown"@ ==> holds_text(content),
        content.name == "structured"@ ==> structured_of(content) is Ok,
        content.name == "error"@ ==> (prop_in(content.entries, "kind"@) matches Some(
            Scalar::Str(_),
        )) && (prop_in(content.entries, "message"@) matches Some(Scalar::Str(_))),
    ensures
        page_of(t) is Ok,
{
    sibling_nodes_differ();
    arguments_are_read_in_order(content, "markdown"@);
    let nodes = t.children->0;
    let start = PageParts { content: None, metrics: None };
    reveal_with_fuel(walk, 3);
    assert(nodes[0] == content);
    let rest = nodes.drop_first();
    match metrics {
        Some(m) => {
            assert(rest =~= seq![m]);
            assert(rest.drop_first() =~= Seq::<Tree>::empty());
        },
        None => {
            assert(rest =~= Seq::<Tree>::empty());
        },
    }
}

/// A parameter is what its first entry says: JSON text under the type `json`, and
/// otherwise the KDL value itself. A whole number keeps its value where JSON has it.
pub proof fn params_are_read_by_their_first_entry(t: Tree)
    ensures
        t.entries.len() == 0 ==> param_of(t) is Err,
        t.entries.len() > 0 ==> {
            let e = t.entries[0];
            match e.value {
                Scalar::Str(s) => if e.ty == Some("json"@) {
                    match json_decoded(s) {
                        Ok(v) => param_of(t) == Ok::<Json, KdlFault>(v),
                        Err(_) => param_of(t) is Err,
                    }
                } else {
                    param_of(t) == Ok::<Json, KdlFault>(Json::Str(s))
                },
                Scalar::Bool(b) => param_of(t) == Ok::<Json, KdlFault>(Json::Bool(b)),
                Scalar::Null => param_of(t) == Ok::<Json, KdlFault>(Json::Null),
                Scalar::Int(i) => {
                    &&& 0 <= i <= u64::MAX ==> param_of(t) == Ok::<Json, KdlFault>(
                        Json::Number(Num::Pos(i as u64)),
                    )
                    &&& i64::MIN <= i < 0 ==> param_of(t) == Ok::<Json, KdlFault>(
                        Json::Number(Num::Neg(i as i64)),
                    )
                },
                Scalar::Float(x) => param_of(t) == Ok::<Json, KdlFault>(
                    if x == "NaN"@ || x == "inf"@ || x == "-inf"@ {
                        Json::Null
                    } else {
                        Json::Number(Num::Float(x))
                    },
                ),
            }
        },
{
}

proof fn params_walk(nodes: Seq<Tree>, start: Seq<(Seq<char>, Json)>, key: Seq<char>)
    requires
        keys_ordered(start),
    ensures
        ({
            let mine = nodes.filter(called(key));
            walk(nodes, start, param_step()) matches Ok(out) ==> {
                &&& keys_ordered(out)
                &&& if mine.len() == 0 {
                    under_key(out, key) == under_key(start, key)
                } else {
                    under_key(out, key) matches Some(v) && param_of(mine.last()) == Ok::<
                        Json,
                        KdlFault,
                    >(v)
                }
            }
        }),
    decreases nodes.len(),
{
    if nodes.len() == 0 {
        reveal(Seq::filter);
    } else {
        filter_from_the_front(nodes, key);
        let rest = nodes.drop_first();
        let mine = nodes.filter(called(key));
        let later = rest.filter(called(key));
        if let Ok(v) = param_of(nodes[0]) {
            let next = with_param(start, nodes[0].name, v);
            with_key_keeps_order(start, nodes[0].name, v);
            with_key_effect(start, nodes[0].name, v, key);
            params_walk(rest, next, key);
            if nodes[0].name == key {
                if later.len() > 0 {
                    assert(mine.last() == later.last());
                } else {
                    assert(mine.last() == nodes[0]);
                }
            }
        }
    }
}

/// All nodes below the nodes called `params`, in their order.
pub open spec fn param_nodes(nodes: Seq<Tree>) -> Seq<Tree>
    decreases nodes.len(),
{
    if nodes.len() == 0 {
        Seq::empty()
    } else {
        (if nodes[0].name == "params"@ {
            inside(nodes[0])
        } else {
            Seq::empty()
        }) + param_nodes(nodes.drop_first())
    }
}

proof fn run_walk(nodes: Seq<Tree>, start: RunParts, key: Seq<char>)
    requires
        keys_ordered(start.params),
    ensures
        ({
            let prompts = nodes.filter(called("prompt"@));
            let mine = param_nodes(nodes).filter(called(key));
            walk(nodes, start, run_step()) matches Ok(out) ==> {
                &&& if prompts.len() == 0 {
                    out.prompt == start.prompt
                } else {
                    argument_is(prompts.last(), out.prompt)
                }
                &&& if mine.len() == 0 {
                    under_key(out.params, key) == under_key(start.params, key)
                } else {
                    under_key(out.params, key) matches Some(v) && param_of(mine.last()) == Ok::<
                        Json,
                        KdlFault,
                    >(v)
                }
            }
        }),
    decreases nodes.len(),
{
    sibling_nodes_differ();
    if nodes.len() == 0 {
        reveal(Seq::filter);
    } else {
        let first = nodes[0];
        let rest = nodes.drop_first();
        filter_from_the_front(nodes, "prompt"@);
        arguments_are_read_in_order(first, "prompt"@);
        let prompts = nodes.filter(called("prompt"@));
        let later_prompts = rest.filter(called("prompt"@));
        let here = if first.name == "params"@ {
            inside(first)
        } else {
            Seq::empty()
        };
        Seq::filter_distributes_over_add(here, param_nodes(rest), called(key));
        reveal(Seq::filter);
        let mine = param_nodes(nodes).filter(called(key));
        let mine_here = here.filter(called(key));
        let later = param_nodes(rest).filter(called(key));
        assert(mine == mine_here + later);
        if later.len() > 0 {
            assert(mine.last() == later.last());
        } else if mine_here.len() > 0 {
            assert(mine.last() == mine_here.last());
        }
        if first.name == "params"@ {
            params_walk(inside(first), start.params, key);
        }
        if let Ok(next) = run_step()(start, first) {
            run_walk(rest, next, key);
            if first.name == "prompt"@ {
                if later_prompts.len() > 0 {
                    assert(prompts.last() == later_prompts.last());
                } else {
                    assert(prompts.last() == first);
                }
            }
        }
    }
}

/// A run is read by the names of its properties. Its prompt is what the last child
/// called so says, and empty without one. A parameter has the value of the last node
/// of its name.
pub proof fn runs_are_read_by_name(t: Tree, key: Seq<char>)
    ensures
        ({
            let prompts = inside(t).filter(called("prompt"@));
            let mine = param_nodes(inside(t)).filter(called(key));
            extraction_of(t) matches Ok(e) ==> {
                &&& is_id(prop_in(t.entries, "uuid"@), e.uuid.0)
                &&& prop_in(t.entries, "model"@) == Some(Scalar::Str(e.model))
                &&& prop_in(t.entries, "created_at"@) matches Some(Scalar::Str(s))
                    && rfc3339_parsed(s) == Ok::<(i64, u32), Seq<char>>(e.created_at)
                &&& if prompts.len() == 0 {
                    e.prompt.len() == 0
                } else {
                    argument_is(prompts.last(), e.prompt)
                }
                &&& match under_key(e.params, key) {
                    Some(v) => mine.len() > 0 && param_of(mine.last()) == Ok::<Json, KdlFault>(v),
                    None => mine.len() == 0,
                }
            }
        }),
{
    run_walk(inside(t), RunParts { prompt: Seq::empty(), params: Seq::empty() }, key);
}

/// The nodes of a list in a document: those called `item` below the first child called
/// `list`.
pub open spec fn listed(t: Tree, list: Seq<char>, item: Seq<char>) -> Seq<Tree> {
    match named(inside(t), list) {
        Some(l) => inside(l).filter(called(item)),
        None => Seq::empty(),
    }
}

/// A document is read by the names of its properties and lists: each run, each page
/// record and each entry, in their order.
pub proof fn documents_are_read_by_name(t: Tree)
    ensures
        ({
            let runs = listed(t, "extractions"@, "extraction"@);
            let pages = listed(t, "extracted_pages"@, "page"@);
            let entries = listed(t, "toc"@, "entry"@);
            match doc_of(t) {
                Ok(d) => {
                    &&& prop_in(t.entries, "schema_version"@) matches Some(Scalar::Int(i))
                        && d.schema_version == i as u32
                    &&& prop_in(t.entries, "content_hash"@) == Some(Scalar::Str(d.content_hash))
                    &&& d.extractions.len() == runs.len()
                    &&& forall|i: int|
                        0 <= i < runs.len() ==> extraction_of(#[trigger] runs[i]) == Ok::<
                            ExtractionView,
                            KdlFault,
                        >(d.extractions[i])
                    &&& d.extracted_pages.len() == pages.len()
                    &&& forall|i: int|
                        0 <= i < pages.len() ==> page_of(#[trigger] pages[i]) == Ok::<
                            PageExtractionView,
                            KdlFault,
                        >(d.extracted_pages[i])
                    &&& d.toc.len() == entries.len()
                    &&& forall|i: int|
                        0 <= i < entries.len() ==> toc_entry_of(#[trigger] entries[i]) == Ok::<
                            TocEntryView,
                            KdlFault,
                        >(d.toc[i])
                },
                Err(_) => {
                    ||| !(prop_in(t.entries, "schema_version"@) matches Some(Scalar::Int(_)))
                    ||| !(prop_in(t.entries, "content_hash"@) matches Some(Scalar::Str(_)))
                    ||| exists|i: int|
                        0 <= i < runs.len() && extraction_of(#[trigger] runs[i]) is Err
                    ||| exists|i: int| 0 <= i < pages.len() && page_of(#[trigger] pages[i]) is Err
                    ||| exists|i: int|
                        0 <= i < entries.len() && toc_entry_of(#[trigger] entries[i]) is Err
                },
            }
        }),
{
    let runs = listed(t, "extractions"@, "extraction"@);
    let pages = listed(t, "extracted_pages"@, "page"@);
    let entries = listed(t, "toc"@, "entry"@);
    if let Some(l) = named(inside(t), "extractions"@) {
        collecting_takes_all(inside(l), Seq::empty(), "extraction"@, read_extraction());
    }
    if let Some(l) = named(inside(t), "extracted_pages"@) {
        collecting_takes_all(inside(l), Seq::empty(), "page"@, read_page());
    }
    if let Some(l) = named(inside(t), "toc"@) {
        collecting_takes_all(inside(l), Seq::empty(), "entry"@, read_toc_entry());
    }
    match doc_of(t) {
        Ok(d) => {
            assert forall|i: int| 0 <= i < runs.len() implies extraction_of(#[trigger] runs[i])
                == Ok::<ExtractionView, KdlFault>(d.extractions[i]) by {
                assert(read_extraction()(runs[i]) == Ok::<ExtractionView, KdlFault>(
                    d.extractions[0 + i],
                ));
            }
            assert forall|i: int| 0 <= i < pages.len() implies page_of(#[trigger] pages[i]) == Ok::<
                PageExtractionView,
                KdlFault,
            >(d.extracted_pages[i]) by {
                assert(read_page()(pages[i]) == Ok::<PageExtractionView, KdlFault>(
                    d.extracted_pages[0 + i],
                ));
            }
            assert forall|i: int| 0 <= i < entries.len() implies toc_entry_of(#[trigger] entries[i])
                == Ok::<TocEntryView, KdlFault>(d.toc[i]) by {
                assert(read_toc_entry()(entries[i]) == Ok::<TocEntryView, KdlFault>(d.toc[0 + i]));
            }
        },
        Err(_) => {
            if exists|i: int| 0 <= i < runs.len() && read_extraction()(#[trigger] runs[i]) is Err {
                let i = choose|i: int|
                    0 <= i < runs.len() && read_extraction()(#[trigger] runs[i]) is Err;
                assert(extraction_of(runs[i]) is Err);
            }
            if exists|i: int| 0 <= i < pages.len() && read_page()(#[trigger] pages[i]) is Err {
                let i = choose|i: int|
                    0 <= i < pages.len() && read_page()(#[trigger] pages[i]) is Err;
                assert(page_of(pages[i]) is Err);
            }
            if exists|i: int| 0 <= i < entries.len() && read_toc_entry()(#[trigger] entries[i]) is Err {
                let i = choose|i: int|
                    0 <= i < entries.len() && read_toc_entry()(#[trigger] entries[i]) is Err;
                assert(toc_entry_of(entries[i]) is Err);
            }
        },
    }
}

/// A text holds the document under its first node called `doc`; without one, or where
/// it is no KDL, it holds none.
pub proof fn texts_hold_one_document(text: Seq<char>)
    ensures
        match kdl_parsed(text) {
            Ok(nodes) => match named(nodes, "doc"@) {
                Some(t) => doc_in_text(text) == doc_of(t),
                None => doc_in_text(text) == Err::<DocView, KdlFault>(
                    KdlFault::MissingNode("doc"@),
                ),
            },
            Err(why) => doc_in_text(text) == Err::<DocView, KdlFault>(KdlFault::Parse(why)),
        },
{
}

// ---------------------------------------------------------------------------
// What is wrong with a file
// ---------------------------------------------------------------------------

/// A property that has to be there and is not is named together with its node, and one of
/// another kind is named together with its value.
pub proof fn missing_properties_are_named(t: Tree, node: Seq<char>, prop: Seq<char>)
    ensures
        prop_in(t.entries, prop) is None ==> {
            let missing = KdlFault::MissingProp { node, prop };
            &&& read_string(t, node, prop) == Err::<Seq<char>, KdlFault>(missing)
            &&& read_int(t, node, prop) == Err::<i128, KdlFault>(missing)
            &&& read_float(t, node, prop) == Err::<Seq<char>, KdlFault>(missing)
            &&& read_id(t, node, prop) == Err::<u128, KdlFault>(missing)
            &&& read_time(t, node, prop) == Err::<(i64, u32), KdlFault>(missing)
        },
        prop_in(t.entries, prop) matches Some(v) ==> {
            let field = node + "."@ + prop;
            &&& !(v is Str) ==> read_string(t, node, prop) == Err::<Seq<char>, KdlFault>(
                KdlFault::InvalidValue { field, message: "expected string, got "@ + scalar_debug(v) },
            )
            &&& !(v is Int) ==> read_int(t, node, prop) == Err::<i128, KdlFault>(
                KdlFault::InvalidValue {
                    field,
                    message: "expected integer, got "@ + scalar_debug(v),
                },
            )
            &&& !(v is Int) && !(v is Float) ==> read_float(t, node, prop) == Err::<
                Seq<char>,
                KdlFault,
            >(
                KdlFault::InvalidValue { field, message: "expected number, got "@ + scalar_debug(v) },
            )
        },
{
}

/// An identity or an instant that does not read as one is reported with its text and the
/// reason.
pub proof fn unreadable_texts_are_named(t: Tree, node: Seq<char>, prop: Seq<char>, text: Seq<char>)
    requires
        prop_in(t.entries, prop) == Some(Scalar::Str(text)),
    ensures
        match uuid_parsed(text) {
            Ok(id) => read_id(t, node, prop) == Ok::<u128, KdlFault>(id),
            Err(source) => read_id(t, node, prop) == Err::<u128, KdlFault>(
                KdlFault::InvalidUuid { value: text, source },
            ),
        },
        match rfc3339_parsed(text) {
            Ok(at) => read_time(t, node, prop) == Ok::<(i64, u32), KdlFault>(at),
            Err(source) => read_time(t, node, prop) == Err::<(i64, u32), KdlFault>(
                KdlFault::InvalidTimestamp { value: text, source },
            ),
        },
{
}

/// Does a fault name no property as missing but one that the node does not have?
pub open spec fn misses_truly<T>(r: Result<T, KdlFault>, t: Tree, name: Seq<char>) -> bool {
    r matches Err(KdlFault::MissingProp { node, prop }) ==> node == name && prop_in(
        t.entries,
        prop,
    ) is None
}

/// A property is reported as missing only where it is.
pub proof fn only_missing_properties_are_reported(t: Tree)
    ensures
        misses_truly(page_meta_of(t), t, "page_meta"@),
        misses_truly(metrics_of(t), t, "metrics"@),
        misses_truly(page_ref_of(t), t, "page_ref"@),
        prop_in(t.entries, "kind"@) is None ==> block_of(t) == Err::<StructuredBlockView, KdlFault>(
            KdlFault::MissingProp { node: "block"@, prop: "kind"@ },
        ),
{
}

/// A message names everything that is known of a fault.
pub proof fn messages_name_the_fault(a: Seq<char>, b: Seq<char>)
    ensures
        fault_message(KdlFault::Parse(a)) == "kdl parse: "@ + a,
        fault_message(KdlFault::MissingNode(a)) == "missing required node `"@ + a + "`"@,
        fault_message(KdlFault::MissingProp { node: a, prop: b }) == "missing required property `"@
            + b + "` on `"@ + a + "`"@,
        fault_message(KdlFault::MissingArg(a)) == "missing required argument on `"@ + a + "`"@,
        fault_message(KdlFault::InvalidValue { field: a, message: b }) == "invalid value for `"@ + a
            + "`: "@ + b,
        fault_message(KdlFault::UnknownContent(a)) == "unknown content variant `"@ + a
            + "` (expected `markdown`, `structured`, or `error`)"@,
        fault_message(KdlFault::InvalidUuid { value: a, source: b }) == "invalid uuid `"@ + a
            + "`: "@ + b,
        fault_message(KdlFault::InvalidTimestamp { value: a, source: b }) == "invalid timestamp `"@
            + a + "`: "@ + b,
        fault_message(KdlFault::InvalidJsonParam { field: a, source: b })
            == "invalid json for params field `"@ + a + "`: "@ + b,
{
}

/// A node that has to hold a text and does not is named.
pub proof fn missing_arguments_are_named(t: Tree, node: Seq<char>)
    ensures
        (forall|i: int| 0 <= i < t.entries.len() ==> (#[trigger] t.entries[i]).name is Some)
            ==> read_text_arg(t, node) == Err::<Seq<char>, KdlFault>(KdlFault::MissingArg(node)),
        forall|k: int|
            #[trigger] first_argument(t, k) && !(t.entries[k].value is Str) ==> read_text_arg(t, node)
                == Err::<Seq<char>, KdlFault>(
                KdlFault::InvalidValue {
                    field: node,
                    message: "expected string, got "@ + scalar_debug(t.entries[k].value),
                },
            ),
{
    assert(t.entries.skip(0) =~= t.entries);
    first_argument_from(t, 0);
    assert forall|k: int|
        #[trigger] first_argument(t, k) && !(t.entries[k].value is Str) implies read_text_arg(t, node)
        == Err::<Seq<char>, KdlFault>(
        KdlFault::InvalidValue {
            field: node,
            message: "expected string, got "@ + scalar_debug(t.entries[k].value),
        },
    ) by {
        assert(t.entries[k].name is None);
        let e = first_arg(t.entries)->0;
        let m = choose|m: int| #[trigger] first_argument(t, m) && t.entries[m] == e;
        if m < k {
            assert(t.entries[m].name is Some);
        } else if k < m {
            assert(t.entries[k].name is Some);
        }
    }
}

/// A child of a page that is neither content nor metrics is reported by its name, and a page
/// without content is reported as such.
pub proof fn unknown_contents_are_named(t: Tree, child: Tree, a: u128, b: u128, page: i128)
    requires
        !is_content_name(child.name),
        child.name != "metrics"@,
    ensures
        forall|p: PageParts| #[trigger]
            page_step()(p, child) == Err::<PageParts, KdlFault>(KdlFault::UnknownContent(child.name)),
        t.children is None && is_id(prop_in(t.entries, "page_uuid"@), a) && is_id(
            prop_in(t.entries, "extraction_uuid"@),
            b,
        ) && prop_in(t.entries, "page"@) == Some(Scalar::Int(page)) ==> page_of(t) == Err::<
            PageExtractionView,
            KdlFault,
        >(KdlFault::MissingNode("page content"@)),
{
}

/// A property that may be missing is read where it is there, and named where it is of
/// another kind.
pub proof fn optional_properties_are_named(t: Tree, prop: Seq<char>)
    ensures
        match prop_in(t.entries, prop) {
            None => {
                &&& read_optional_int(t, prop) == Ok::<Option<i128>, KdlFault>(None)
                &&& read_optional_float(t, prop) == Ok::<Option<Seq<char>>, KdlFault>(None)
                &&& read_optional_string(t, prop) == Ok::<Option<Seq<char>>, KdlFault>(None)
            },
            Some(v) => {
                &&& match v {
                    Scalar::Int(i) => read_optional_int(t, prop) == Ok::<Option<i128>, KdlFault>(
                        Some(i),
                    ),
                    _ => read_optional_int(t, prop) == Err::<Option<i128>, KdlFault>(
                        KdlFault::InvalidValue {
                            field: prop,
                            message: "expected integer, got "@ + scalar_debug(v),
                        },
                    ),
                }
                &&& match v {
                    Scalar::Str(s) => read_optional_string(t, prop) == Ok::<
                        Option<Seq<char>>,
                        KdlFault,
                    >(Some(s)),
                    _ => read_optional_string(t, prop) == Err::<Option<Seq<char>>, KdlFault>(
                        KdlFault::InvalidValue {
                            field: prop,
                            message: "expected string, got "@ + scalar_debug(v),
                        },
                    ),
                }
                &&& !(v is Int) && !(v is Float) ==> read_optional_float(t, prop) == Err::<
                    Option<Seq<char>>,
                    KdlFault,
                >(
                    KdlFault::InvalidValue {
                        field: prop,
                        message: "expected number, got "@ + scalar_debug(v),
                    },
                )
            },
        },
{
}

} // verus!
