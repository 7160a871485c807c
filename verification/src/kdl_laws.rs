//! What is written to KDL is read back.

use crate::ids::{nibble, uuid_text};
use crate::ir::{
    ContentView, DocView, ExtractionView, PageExtractionView, PageMetaView, PageMetricsView,
    PageRefView, StructuredBlockView, StructuredPageView, TocEntryView,
};
use crate::ir::with_param;
use crate::sorted::keys_ordered;
use crate::json::{Json, MAX_DEPTH, Num, not_finite, rereads, texts_printable};
use crate::kdl_model::{
    KdlFault, PageParts, RunParts, arg, bbox_of, below, block_of, block_tree, collecting,
    content_tree, doc_of, doc_rereads, doc_tree, error_of, extraction_of, extraction_rereads,
    extraction_tree, in_four_digit_years, layout_step, metrics_of, metrics_tree, page_meta_of,
    page_meta_tree, page_of, page_ref_of, page_ref_rereads, page_ref_tree, page_rereads, page_step,
    page_tree, param_entry, param_of, param_rereads, param_step, param_tree, read_extraction,
    read_page, read_page_ref, read_text_arg, read_toc_entry, run_step, structured_of,
    structured_tree, text_node, toc_entry_of, toc_entry_rereads, toc_entry_tree, walk,
};
use crate::kdl_tree::{
    Entry, Scalar, Tree, named, printable, printable_char, printable_entry, printable_nodes,
    printable_tree, prop_in,
};
use crate::stamp::is_stamp_text;
use crate::text::text_order_is_total;
use vstd::prelude::*;

verus! {

// ---------------------------------------------------------------------------
// Which documents survive
// ---------------------------------------------------------------------------

pub open spec fn block_survives(b: StructuredBlockView) -> bool {
    printable(b.kind) && (b.text matches Some(s) ==> printable(s))
}

pub open spec fn content_survives(c: ContentView) -> bool {
    match c {
        ContentView::Markdown(s) => printable(s),
        ContentView::Structured(p) => forall|i: int|
            0 <= i < p.blocks.len() ==> block_survives(#[trigger] p.blocks[i]),
        ContentView::Error(e) => printable(e.kind) && printable(e.message),
    }
}

/// Arrays and objects are written as JSON text, in which control characters are
/// escaped.
pub open spec fn param_survives(p: (Seq<char>, Json)) -> bool {
    &&& printable(p.0)
    &&& match p.1 {
        Json::Str(s) => printable(s),
        Json::Number(Num::Pos(_)) => true,
        Json::Number(Num::Neg(i)) => i < 0,
        Json::Number(Num::Float(t)) => !not_finite(t),
        Json::Null => true,
        Json::Bool(_) => true,
        v => rereads(v, MAX_DEPTH as nat) && texts_printable(v),
    }
}

/// Times are written with four digits for the year.
pub open spec fn extraction_survives(e: ExtractionView) -> bool {
    &&& printable(e.model)
    &&& printable(e.prompt)
    &&& in_four_digit_years(e.created_at)
    &&& forall|i: int| 0 <= i < e.params.len() ==> param_survives(#[trigger] e.params[i])
}

pub open spec fn toc_entry_survives(e: TocEntryView) -> bool {
    &&& printable(e.title)
    &&& forall|i: int| 0 <= i < e.page_refs.len() ==> printable((#[trigger] e.page_refs[i]).model)
}

/// Is the document one that comes back? All texts in it have to be printable, all
/// years to have four digits, and all parameters to keep their values.
pub open spec fn survives(d: DocView) -> bool {
    &&& printable(d.content_hash)
    &&& forall|i: int|
        0 <= i < d.extractions.len() ==> extraction_survives(#[trigger] d.extractions[i])
    &&& forall|i: int|
        0 <= i < d.extracted_pages.len() ==> content_survives(
            (#[trigger] d.extracted_pages[i]).content,
        )
    &&& forall|i: int| 0 <= i < d.toc.len() ==> toc_entry_survives(#[trigger] d.toc[i])
}

// ---------------------------------------------------------------------------
// Names
// ---------------------------------------------------------------------------

/// Is the text made of small letters and underscores?
spec fn is_name(s: Seq<char>) -> bool {
    forall|i: int|
        0 <= i < s.len() ==> {
            let c = #[trigger] s[i];
            'a' <= c <= 'z' || c == '_'
        }
}

broadcast proof fn names_are_printable(s: Seq<char>)
    requires
        is_name(s),
    ensures
        #[trigger] printable(s),
{
}

proof fn node_names()
    ensures
        is_name("doc"@),
        is_name("extractions"@),
        is_name("extracted_pages"@),
        is_name("toc"@),
        is_name("extraction"@),
        is_name("prompt"@),
        is_name("params"@),
        is_name("page"@),
        is_name("markdown"@),
        is_name("structured"@),
        is_name("error"@),
        is_name("metrics"@),
        is_name("page_meta"@),
        is_name("block"@),
        is_name("text"@),
        is_name("entry"@),
        is_name("page_ref"@),
        is_name("json"@),
{
    reveal_strlit("doc");
    reveal_strlit("extractions");
    reveal_strlit("extracted_pages");
    reveal_strlit("toc");
    reveal_strlit("extraction");
    reveal_strlit("prompt");
    reveal_strlit("params");
    reveal_strlit("page");
    reveal_strlit("markdown");
    reveal_strlit("structured");
    reveal_strlit("error");
    reveal_strlit("metrics");
    reveal_strlit("page_meta");
    reveal_strlit("block");
    reveal_strlit("text");
    reveal_strlit("entry");
    reveal_strlit("page_ref");
    reveal_strlit("json");
}

proof fn prop_names()
    ensures
        is_name("schema_version"@),
        is_name("content_hash"@),
        is_name("uuid"@),
        is_name("model"@),
        is_name("created_at"@),
        is_name("page"@),
        is_name("page_uuid"@),
        is_name("extraction_uuid"@),
        is_name("kind"@),
        is_name("message"@),
        is_name("x"@),
        is_name("y"@),
        is_name("w"@),
        is_name("h"@),
        is_name("confidence"@),
        is_name("width_pts"@),
        is_name("height_pts"@),
        is_name("rotation_deg"@),
        is_name("dpi"@),
        is_name("elapsed_secs"@),
        is_name("input_tokens"@),
        is_name("output_tokens"@),
        is_name("id"@),
        is_name("title"@),
        is_name("level"@),
        is_name("parent"@),
        is_name("built_by"@),
{
    reveal_strlit("schema_version");
    reveal_strlit("content_hash");
    reveal_strlit("uuid");
    reveal_strlit("model");
    reveal_strlit("created_at");
    reveal_strlit("page");
    reveal_strlit("page_uuid");
    reveal_strlit("extraction_uuid");
    reveal_strlit("kind");
    reveal_strlit("message");
    reveal_strlit("x");
    reveal_strlit("y");
    reveal_strlit("w");
    reveal_strlit("h");
    reveal_strlit("confidence");
    reveal_strlit("width_pts");
    reveal_strlit("height_pts");
    reveal_strlit("rotation_deg");
    reveal_strlit("dpi");
    reveal_strlit("elapsed_secs");
    reveal_strlit("input_tokens");
    reveal_strlit("output_tokens");
    reveal_strlit("id");
    reveal_strlit("title");
    reveal_strlit("level");
    reveal_strlit("parent");
    reveal_strlit("built_by");
}

/// Names of children of one node differ.
pub(crate) proof fn sibling_nodes_differ()
    ensures
        "extractions"@ != "extracted_pages"@,
        "extractions"@ != "toc"@,
        "extracted_pages"@ != "toc"@,
        "prompt"@ != "params"@,
        "markdown"@ != "structured"@,
        "markdown"@ != "error"@,
        "markdown"@ != "metrics"@,
        "structured"@ != "error"@,
        "structured"@ != "metrics"@,
        "error"@ != "metrics"@,
        "page_meta"@ != "block"@,
{
    reveal_strlit("extractions");
    assert("extractions"@.len() == 11);
    reveal_strlit("extracted_pages");
    assert("extracted_pages"@.len() == 15);
    reveal_strlit("toc");
    assert("toc"@.len() == 3);
    reveal_strlit("prompt");
    assert("prompt"@.len() == 6);
    reveal_strlit("params");
    assert("params"@.len() == 6);
    reveal_strlit("markdown");
    assert("markdown"@.len() == 8);
    reveal_strlit("structured");
    assert("structured"@.len() == 10);
    reveal_strlit("error");
    assert("error"@.len() == 5);
    reveal_strlit("metrics");
    assert("metrics"@.len() == 7);
    reveal_strlit("page_meta");
    assert("page_meta"@.len() == 9);
    reveal_strlit("block");
    assert("block"@.len() == 5);
    assert("prompt"@[1] != "params"@[1]);
}

/// Names of properties of one node differ.
pub(crate) proof fn sibling_props_differ()
    ensures
        "schema_version"@ != "content_hash"@,
        "uuid"@ != "model"@,
        "uuid"@ != "created_at"@,
        "model"@ != "created_at"@,
        "page"@ != "page_uuid"@,
        "page"@ != "extraction_uuid"@,
        "page_uuid"@ != "extraction_uuid"@,
        "page"@ != "model"@,
        "model"@ != "page_uuid"@,
        "model"@ != "extraction_uuid"@,
        "kind"@ != "message"@,
        "width_pts"@ != "height_pts"@,
        "width_pts"@ != "rotation_deg"@,
        "width_pts"@ != "dpi"@,
        "height_pts"@ != "rotation_deg"@,
        "height_pts"@ != "dpi"@,
        "rotation_deg"@ != "dpi"@,
        "elapsed_secs"@ != "input_tokens"@,
        "elapsed_secs"@ != "output_tokens"@,
        "input_tokens"@ != "output_tokens"@,
        "id"@ != "title"@,
        "id"@ != "level"@,
        "id"@ != "parent"@,
        "id"@ != "built_by"@,
        "title"@ != "level"@,
        "title"@ != "parent"@,
        "title"@ != "built_by"@,
        "level"@ != "parent"@,
        "level"@ != "built_by"@,
        "parent"@ != "built_by"@,
{
    reveal_strlit("schema_version");
    assert("schema_version"@.len() == 14);
    reveal_strlit("content_hash");
    assert("content_hash"@.len() == 12);
    reveal_strlit("uuid");
    assert("uuid"@.len() == 4);
    reveal_strlit("model");
    assert("model"@.len() == 5);
    reveal_strlit("created_at");
    assert("created_at"@.len() == 10);
    reveal_strlit("page");
    assert("page"@.len() == 4);
    reveal_strlit("page_uuid");
    assert("page_uuid"@.len() == 9);
    reveal_strlit("extraction_uuid");
    assert("extraction_uuid"@.len() == 15);
    reveal_strlit("kind");
    assert("kind"@.len() == 4);
    reveal_strlit("message");
    assert("message"@.len() == 7);
    reveal_strlit("width_pts");
    assert("width_pts"@.len() == 9);
    reveal_strlit("height_pts");
    assert("height_pts"@.len() == 10);
    reveal_strlit("rotation_deg");
    assert("rotation_deg"@.len() == 12);
    reveal_strlit("dpi");
    assert("dpi"@.len() == 3);
    reveal_strlit("elapsed_secs");
    assert("elapsed_secs"@.len() == 12);
    reveal_strlit("input_tokens");
    assert("input_tokens"@.len() == 12);
    reveal_strlit("output_tokens");
    assert("output_tokens"@.len() == 13);
    reveal_strlit("id");
    assert("id"@.len() == 2);
    reveal_strlit("title");
    assert("title"@.len() == 5);
    reveal_strlit("level");
    assert("level"@.len() == 5);
    reveal_strlit("parent");
    assert("parent"@.len() == 6);
    reveal_strlit("built_by");
    assert("built_by"@.len() == 8);
    assert("elapsed_secs"@[0] != "input_tokens"@[0]);
    assert("title"@[0] != "level"@[0]);
}

/// Names of properties of a block differ.
pub(crate) proof fn block_props_differ()
    ensures
        "kind"@ != "x"@,
        "kind"@ != "y"@,
        "kind"@ != "w"@,
        "kind"@ != "h"@,
        "kind"@ != "confidence"@,
        "x"@ != "y"@,
        "x"@ != "w"@,
        "x"@ != "h"@,
        "x"@ != "confidence"@,
        "y"@ != "w"@,
        "y"@ != "h"@,
        "y"@ != "confidence"@,
        "w"@ != "h"@,
        "w"@ != "confidence"@,
        "h"@ != "confidence"@,
{
    reveal_strlit("kind");
    assert("kind"@.len() == 4);
    reveal_strlit("x");
    assert("x"@.len() == 1);
    reveal_strlit("y");
    assert("y"@.len() == 1);
    reveal_strlit("w");
    assert("w"@.len() == 1);
    reveal_strlit("h");
    assert("h"@.len() == 1);
    reveal_strlit("confidence");
    assert("confidence"@.len() == 10);
    assert("x"@[0] == 'x' && "y"@[0] == 'y' && "w"@[0] == 'w' && "h"@[0] == 'h');
}

// ---------------------------------------------------------------------------
// Single records
// ---------------------------------------------------------------------------

/// Appending an entry sets its property and leaves the others.
pub(crate) broadcast proof fn prop_after_push(entries: Seq<Entry>, e: Entry, name: Seq<char>)
    ensures
        #[trigger] prop_in(entries.push(e), name) == (if e.name == Some(name) {
            Some(e.value)
        } else {
            prop_in(entries, name)
        }),
{
    assert(entries.push(e).drop_last() =~= entries);
}

proof fn text_node_back(name: Seq<char>, s: Seq<char>)
    ensures
        read_text_arg(text_node(name, s), name) == Ok::<Seq<char>, KdlFault>(s),
{
    let t = text_node(name, s);
    assert(t.entries[0] == arg(Scalar::Str(s)));
}

proof fn metrics_back(m: PageMetricsView)
    ensures
        metrics_of(metrics_tree(m)) == Ok::<PageMetricsView, KdlFault>(m),
{
    broadcast use prop_after_push;

    sibling_props_differ();
}

proof fn page_meta_back(m: PageMetaView)
    ensures
        page_meta_of(page_meta_tree(m)) == Ok::<PageMetaView, KdlFault>(m),
{
    broadcast use prop_after_push;

    sibling_props_differ();
}

proof fn block_back(b: StructuredBlockView)
    ensures
        block_of(block_tree(b)) == Ok::<StructuredBlockView, KdlFault>(b),
{
    broadcast use prop_after_push;

    block_props_differ();
    let t = block_tree(b);
    assert(bbox_of(t) == Ok::<_, KdlFault>(b.bbox));
    match b.text {
        Some(s) => {
            text_node_back("text"@, s);
            let c = seq![text_node("text"@, s)];
            assert(below(t) == c);
            assert(c.drop_first().len() == 0);
            reveal_with_fuel(walk, 2);
        },
        None => {
            assert(below(t).len() == 0);
        },
    }
}

proof fn page_ref_back(r: PageRefView)
    requires
        page_ref_rereads(r),
    ensures
        page_ref_of(page_ref_tree(r)) == Ok::<PageRefView, KdlFault>(r),
{
    broadcast use prop_after_push;

    sibling_props_differ();
}

// ---------------------------------------------------------------------------
// Lists and what holds them
// ---------------------------------------------------------------------------

/// A list whose items read back one by one, as the items of `back`, reads back as
/// `back`.
proof fn list_back<T>(
    items: Seq<T>,
    back: Seq<T>,
    done: Seq<T>,
    name: Seq<char>,
    write: spec_fn(T) -> Tree,
    read: spec_fn(Tree) -> Result<T, KdlFault>,
)
    requires
        items.len() == back.len(),
        forall|i: int|
            0 <= i < items.len() ==> write(#[trigger] items[i]).name == name && read(
                write(items[i]),
            ) == Ok::<T, KdlFault>(back[i]),
    ensures
        walk(items.map_values(write), done, collecting(name, read)) == Ok::<Seq<T>, KdlFault>(
            done + back,
        ),
    decreases items.len(),
{
    let nodes = items.map_values(write);
    if items.len() == 0 {
        assert(done + back =~= done);
    } else {
        let rest = items.drop_first();
        assert(nodes[0] == write(items[0]));
        assert(nodes.drop_first() =~= rest.map_values(write));
        assert forall|i: int| 0 <= i < rest.len() implies write(#[trigger] rest[i]).name == name
            && read(write(rest[i])) == Ok::<T, KdlFault>(back.drop_first()[i]) by {
            assert(rest[i] == items[i + 1]);
        }
        list_back(rest, back.drop_first(), done.push(back[0]), name, write, read);
        assert(done.push(back[0]) + back.drop_first() =~= done + back);
    }
}

/// Walking over two runs of nodes is walking over one and then the other.
proof fn walk_in_two<S>(
    a: Seq<Tree>,
    b: Seq<Tree>,
    state: S,
    step: spec_fn(S, Tree) -> Result<S, KdlFault>,
)
    ensures
        walk(a + b, state, step) == (match walk(a, state, step) {
            Ok(mid) => walk(b, mid, step),
            Err(e) => Err(e),
        }),
    decreases a.len(),
{
    if a.len() == 0 {
        assert(a + b =~= b);
    } else {
        assert((a + b)[0] == a[0]);
        assert((a + b).drop_first() =~= a.drop_first() + b);
        match step(state, a[0]) {
            Ok(next) => walk_in_two(a.drop_first(), b, next, step),
            Err(_) => {},
        }
    }
}

/// Walking over a single node is one step.
proof fn walk_one<S>(t: Tree, state: S, step: spec_fn(S, Tree) -> Result<S, KdlFault>)
    ensures
        walk(seq![t], state, step) == step(state, t),
{
    reveal_with_fuel(walk, 2);
    assert(seq![t].drop_first().len() == 0);
}

proof fn blocks_back(blocks: Seq<StructuredBlockView>, p: StructuredPageView)
    ensures
        walk(
            blocks.map_values(|b: StructuredBlockView| block_tree(b)),
            p,
            layout_step(),
        ) == Ok::<StructuredPageView, KdlFault>(
            (StructuredPageView { blocks: p.blocks + blocks, page_meta: p.page_meta }),
        ),
    decreases blocks.len(),
{
    let nodes = blocks.map_values(|b: StructuredBlockView| block_tree(b));
    if blocks.len() == 0 {
        assert(p.blocks + blocks =~= p.blocks);
    } else {
        let rest = blocks.drop_first();
        sibling_nodes_differ();
        block_back(blocks[0]);
        assert(nodes[0] == block_tree(blocks[0]));
        assert(nodes.drop_first() =~= rest.map_values(|b: StructuredBlockView| block_tree(b)));
        let next = StructuredPageView {
            blocks: p.blocks.push(blocks[0]),
            page_meta: p.page_meta,
        };
        blocks_back(rest, next);
        assert(next.blocks + rest =~= p.blocks + blocks);
    }
}

proof fn structured_back(p: StructuredPageView)
    ensures
        structured_of(structured_tree(p)) == Ok::<StructuredPageView, KdlFault>(p),
{
    let start = StructuredPageView { blocks: Seq::empty(), page_meta: None };
    let blocks = p.blocks.map_values(|b: StructuredBlockView| block_tree(b));
    let with_meta = StructuredPageView { blocks: Seq::empty(), page_meta: p.page_meta };
    blocks_back(p.blocks, with_meta);
    assert(with_meta.blocks + p.blocks =~= p.blocks);
    match p.page_meta {
        Some(m) => {
            let meta = seq![page_meta_tree(m)];
            assert(below(structured_tree(p)) =~= meta + blocks);
            page_meta_back(m);
            walk_one(page_meta_tree(m), start, layout_step());
            walk_in_two(meta, blocks, start, layout_step());
        },
        None => {
            assert(below(structured_tree(p)) =~= blocks);
        },
    }
}

proof fn content_back(c: ContentView, p: PageParts)
    ensures
        page_step()(p, content_tree(c)) == Ok::<PageParts, KdlFault>(
            (PageParts { content: Some(c), metrics: p.metrics }),
        ),
{
    broadcast use prop_after_push;

    sibling_nodes_differ();
    sibling_props_differ();
    match c {
        ContentView::Markdown(s) => text_node_back("markdown"@, s),
        ContentView::Structured(s) => structured_back(s),
        ContentView::Error(e) => {
            assert(error_of(content_tree(c)) == Ok::<_, KdlFault>(e));
        },
    }
}

proof fn page_back(p: PageExtractionView)
    requires
        page_rereads(p),
    ensures
        page_of(page_tree(p)) == Ok::<PageExtractionView, KdlFault>(p),
{
    broadcast use prop_after_push;

    sibling_props_differ();
    sibling_nodes_differ();
    let t = page_tree(p);
    let start = PageParts { content: None, metrics: None };
    let mid = PageParts { content: Some(p.content), metrics: None };
    content_back(p.content, start);
    walk_one(content_tree(p.content), start, page_step());
    let head = seq![content_tree(p.content)];
    match p.metrics {
        Some(m) => {
            let tail = seq![metrics_tree(m)];
            assert(below(t) =~= head + tail);
            metrics_back(m);
            walk_one(metrics_tree(m), mid, page_step());
            walk_in_two(head, tail, start, page_step());
        },
        None => {
            assert(below(t) =~= head);
        },
    }
}

proof fn toc_entry_back(e: TocEntryView)
    requires
        toc_entry_rereads(e),
    ensures
        toc_entry_of(toc_entry_tree(e)) == Ok::<TocEntryView, KdlFault>(e),
{
    broadcast use prop_after_push;

    sibling_props_differ();
    let write = |r: PageRefView| page_ref_tree(r);
    assert forall|i: int| 0 <= i < e.page_refs.len() implies write(#[trigger] e.page_refs[i]).name
        == "page_ref"@ && read_page_ref()(write(e.page_refs[i])) == Ok::<PageRefView, KdlFault>(
        e.page_refs[i],
    ) by {
        page_ref_back(e.page_refs[i]);
    }
    list_back(e.page_refs, e.page_refs, Seq::empty(), "page_ref"@, write, read_page_ref());
    assert(below(toc_entry_tree(e)) =~= e.page_refs.map_values(write));
    assert(Seq::<PageRefView>::empty() + e.page_refs =~= e.page_refs);
}

proof fn param_back(p: (Seq<char>, Json))
    requires
        param_survives(p),
        param_rereads(p.1),
    ensures
        param_of(param_tree(p)) == Ok::<Json, KdlFault>(p.1),
{
    let t = param_tree(p);
    assert(t.entries[0] == param_entry(p.1));
}

/// Parameters that are set in key order, behind smaller ones, are appended.
proof fn params_back(params: Seq<(Seq<char>, Json)>, done: Seq<(Seq<char>, Json)>)
    requires
        forall|i: int| 0 <= i < params.len() ==> param_survives(#[trigger] params[i]),
        forall|i: int| 0 <= i < params.len() ==> param_rereads((#[trigger] params[i]).1),
        keys_ordered(done + params),
    ensures
        walk(
            params.map_values(|p: (Seq<char>, Json)| param_tree(p)),
            done,
            param_step(),
        ) == Ok::<Seq<(Seq<char>, Json)>, KdlFault>(done + params),
    decreases params.len(),
{
    let nodes = params.map_values(|p: (Seq<char>, Json)| param_tree(p));
    if params.len() == 0 {
        assert(done + params =~= done);
    } else {
        let rest = params.drop_first();
        let p = params[0];
        param_back(p);
        assert(nodes[0] == param_tree(p));
        assert(nodes.drop_first() =~= rest.map_values(|p: (Seq<char>, Json)| param_tree(p)));
        let next = done.push(p);
        assert(next + rest =~= done + params);
        if done.len() > 0 {
            assert((done + params)[done.len() - 1].0 == done.last().0);
            assert((done + params)[done.len() as int].0 == p.0);
            text_order_is_total(done.last().0, p.0);
        } else {
            assert(seq![(p.0, p.1)] =~= done.push(p));
        }
        assert(with_param(done, p.0, p.1) =~= next);
        assert forall|i: int| 0 <= i < rest.len() implies param_survives(#[trigger] rest[i])
            && param_rereads(rest[i].1) by {
            assert(rest[i] == params[i + 1]);
        }
        params_back(rest, next);
    }
}

proof fn extraction_back(e: ExtractionView)
    requires
        extraction_rereads(e),
        extraction_survives(e),
    ensures
        extraction_of(extraction_tree(e)) == Ok::<ExtractionView, KdlFault>(e),
{
    broadcast use prop_after_push;

    sibling_props_differ();
    sibling_nodes_differ();
    let t = extraction_tree(e);
    let start = RunParts { prompt: Seq::empty(), params: Seq::empty() };
    let mid = RunParts { prompt: e.prompt, params: Seq::empty() };
    let head = seq![text_node("prompt"@, e.prompt)];
    text_node_back("prompt"@, e.prompt);
    walk_one(text_node("prompt"@, e.prompt), start, run_step());
    if e.params.len() == 0 {
        assert(below(t) =~= head);
        assert(e.params =~= Seq::empty());
    } else {
        let list = e.params.map_values(|p: (Seq<char>, Json)| param_tree(p));
        let node = Tree::bare("params"@).with_children(list);
        let tail = seq![node];
        assert(below(t) =~= head + tail);
        assert(Seq::<(Seq<char>, Json)>::empty() + e.params =~= e.params);
        params_back(e.params, Seq::empty());
        assert(below(node) == list);
        walk_one(node, mid, run_step());
        walk_in_two(head, tail, start, run_step());
    }
}

/// A document that survives is read back from its tree.
pub proof fn doc_back(d: DocView)
    requires
        doc_rereads(d),
        survives(d),
    ensures
        doc_of(doc_tree(d)) == Ok::<DocView, KdlFault>(d),
{
    broadcast use prop_after_push;

    sibling_props_differ();
    sibling_nodes_differ();
    let t = doc_tree(d);
    let runs = |e: ExtractionView| extraction_tree(e);
    let pages = |p: PageExtractionView| page_tree(p);
    let entries = |e: TocEntryView| toc_entry_tree(e);
    assert forall|i: int| 0 <= i < d.extractions.len() implies runs(
        #[trigger] d.extractions[i],
    ).name == "extraction"@ && read_extraction()(runs(d.extractions[i])) == Ok::<
        ExtractionView,
        KdlFault,
    >(d.extractions[i]) by {
        extraction_back(d.extractions[i]);
    }
    assert forall|i: int| 0 <= i < d.extracted_pages.len() implies pages(
        #[trigger] d.extracted_pages[i],
    ).name == "page"@ && read_page()(pages(d.extracted_pages[i])) == Ok::<
        PageExtractionView,
        KdlFault,
    >(d.extracted_pages[i]) by {
        page_back(d.extracted_pages[i]);
    }
    assert forall|i: int| 0 <= i < d.toc.len() implies entries(#[trigger] d.toc[i]).name
        == "entry"@ && read_toc_entry()(entries(d.toc[i])) == Ok::<TocEntryView, KdlFault>(
        d.toc[i],
    ) by {
        toc_entry_back(d.toc[i]);
    }
    list_back(d.extractions, d.extractions, Seq::empty(), "extraction"@, runs, read_extraction());
    list_back(d.extracted_pages, d.extracted_pages, Seq::empty(), "page"@, pages, read_page());
    list_back(d.toc, d.toc, Seq::empty(), "entry"@, entries, read_toc_entry());
    assert(Seq::<ExtractionView>::empty() + d.extractions =~= d.extractions);
    assert(Seq::<PageExtractionView>::empty() + d.extracted_pages =~= d.extracted_pages);
    assert(Seq::<TocEntryView>::empty() + d.toc =~= d.toc);
    let a = Tree::bare("extractions"@).with_children(d.extractions.map_values(runs));
    let b = Tree::bare("extracted_pages"@).with_children(d.extracted_pages.map_values(pages));
    let c = Tree::bare("toc"@).with_children(d.toc.map_values(entries));
    let nodes = seq![a, b, c];
    assert(d.extractions.map_values(runs) =~= d.extractions.map_values(
        |e: ExtractionView| extraction_tree(e),
    ));
    assert(d.extracted_pages.map_values(pages) =~= d.extracted_pages.map_values(
        |p: PageExtractionView| page_tree(p),
    ));
    assert(d.toc.map_values(entries) =~= d.toc.map_values(|e: TocEntryView| toc_entry_tree(e)));
    assert(below(t) =~= nodes);
    assert(nodes.drop_first() =~= seq![b, c]);
    assert(nodes.drop_first().drop_first() =~= seq![c]);
    reveal_with_fuel(named, 4);
    assert(named(nodes, "extractions"@) == Some(a));
    assert(named(nodes, "extracted_pages"@) == Some(b));
    assert(named(nodes, "toc"@) == Some(c));
}

// ---------------------------------------------------------------------------
// Printability
// ---------------------------------------------------------------------------

proof fn id_text_printable(id: u128)
    ensures
        printable(uuid_text(id)),
{
    let s = uuid_text(id);
    assert forall|i: int| 0 <= i < s.len() implies printable_char(#[trigger] s[i]) && s[i] != '.' by {
        if !(i == 8 || i == 13 || i == 18 || i == 23) {
            let d = nibble(id, i - crate::ids::hyphens_before(i));
            assert(0 <= d < 16);
        }
    }
}

proof fn stamp_text_printable(s: Seq<char>)
    requires
        is_stamp_text(s),
    ensures
        printable(s),
{
}

broadcast proof fn bare_printable(name: Seq<char>)
    requires
        printable(name),
    ensures
        #[trigger] printable_tree(Tree::bare(name)),
{
}

broadcast proof fn with_entry_printable(t: Tree, e: Entry)
    requires
        printable_tree(t),
        printable_entry(e),
    ensures
        #[trigger] printable_tree(t.with_entry(e)),
{
    let u = t.with_entry(e);
    assert forall|i: int| 0 <= i < u.entries.len() implies printable_entry(
        #[trigger] u.entries[i],
    ) by {
        if i < t.entries.len() {
            assert(u.entries[i] == t.entries[i]);
        }
    }
}

broadcast proof fn with_children_printable(t: Tree, nodes: Seq<Tree>)
    requires
        printable_tree(t),
        printable_nodes(nodes),
    ensures
        #[trigger] printable_tree(t.with_children(nodes)),
{
    let u = t.with_children(nodes);
    assert(u.entries == t.entries);
}

broadcast group group_printable {
    names_are_printable,
    bare_printable,
    with_entry_printable,
    with_children_printable,
}

proof fn metrics_printable(m: PageMetricsView)
    ensures
        printable_tree(metrics_tree(m)),
{
    broadcast use group_printable;

    node_names();
    prop_names();
}

proof fn page_meta_printable(m: PageMetaView)
    ensures
        printable_tree(page_meta_tree(m)),
{
    broadcast use group_printable;

    node_names();
    prop_names();
}

proof fn block_printable(b: StructuredBlockView)
    requires
        block_survives(b),
    ensures
        printable_tree(block_tree(b)),
{
    broadcast use group_printable;

    node_names();
    prop_names();
    if let Some(s) = b.text {
        assert(printable_tree(text_node("text"@, s)));
    }
}

proof fn content_printable(c: ContentView)
    requires
        content_survives(c),
    ensures
        printable_tree(content_tree(c)),
{
    broadcast use group_printable;

    node_names();
    prop_names();
    if let ContentView::Structured(p) = c {
        let nodes = structured_tree(p).children->0;
        assert forall|i: int| 0 <= i < nodes.len() implies printable_tree(#[trigger] nodes[i]) by {
            match p.page_meta {
                Some(m) => {
                    page_meta_printable(m);
                    if i > 0 {
                        block_printable(p.blocks[i - 1]);
                    }
                },
                None => block_printable(p.blocks[i]),
            }
        }
        assert(printable_nodes(nodes));
        assert(structured_tree(p) == Tree::bare("structured"@).with_children(nodes));
    }
}

proof fn page_printable(p: PageExtractionView)
    requires
        content_survives(p.content),
    ensures
        printable_tree(page_tree(p)),
{
    broadcast use group_printable;

    node_names();
    prop_names();
    id_text_printable(p.page_uuid.0);
    id_text_printable(p.extraction_uuid.0);
    content_printable(p.content);
    if let Some(m) = p.metrics {
        metrics_printable(m);
    }
    let nodes = page_tree(p).children->0;
    assert(printable_nodes(nodes));
}

proof fn toc_entry_printable(e: TocEntryView)
    requires
        toc_entry_survives(e),
    ensures
        printable_tree(toc_entry_tree(e)),
{
    broadcast use group_printable;

    node_names();
    prop_names();
    id_text_printable(e.id.0);
    id_text_printable(e.built_by.0);
    if let Some(parent) = e.parent {
        id_text_printable(parent.0);
    }
    let nodes = toc_entry_tree(e).children->0;
    assert forall|i: int| 0 <= i < nodes.len() implies printable_tree(#[trigger] nodes[i]) by {
        let r = e.page_refs[i];
        id_text_printable(r.page_uuid.0);
        id_text_printable(r.extraction_uuid.0);
        assert(nodes[i] == page_ref_tree(r));
    }
    assert(printable_nodes(nodes));
}

proof fn extraction_printable(e: ExtractionView)
    requires
        extraction_rereads(e),
        extraction_survives(e),
    ensures
        printable_tree(extraction_tree(e)),
{
    broadcast use group_printable;

    node_names();
    prop_names();
    id_text_printable(e.uuid.0);
    stamp_text_printable(crate::stamp::rfc3339_text(e.created_at.0, e.created_at.1));
    let list = e.params.map_values(|p: (Seq<char>, Json)| param_tree(p));
    assert forall|i: int| 0 <= i < list.len() implies printable_tree(#[trigger] list[i]) by {
        assert(list[i] == param_tree(e.params[i]));
        assert(printable_entry(param_entry(e.params[i].1)));
    }
    assert(printable_nodes(list));
    assert(printable_tree(text_node("prompt"@, e.prompt)));
    let nodes = extraction_tree(e).children->0;
    assert(printable_nodes(nodes));
}

/// All texts in the tree of a document that survives are printable.
pub proof fn doc_printable(d: DocView)
    requires
        doc_rereads(d),
        survives(d),
    ensures
        printable_tree(doc_tree(d)),
{
    broadcast use group_printable;

    node_names();
    prop_names();
    let nodes = doc_tree(d).children->0;
    let runs = nodes[0].children->0;
    let pages = nodes[1].children->0;
    let entries = nodes[2].children->0;
    assert forall|i: int| 0 <= i < runs.len() implies printable_tree(#[trigger] runs[i]) by {
        extraction_printable(d.extractions[i]);
    }
    assert forall|i: int| 0 <= i < pages.len() implies printable_tree(#[trigger] pages[i]) by {
        page_printable(d.extracted_pages[i]);
    }
    assert forall|i: int| 0 <= i < entries.len() implies printable_tree(#[trigger] entries[i]) by {
        toc_entry_printable(d.toc[i]);
    }
    assert(printable_nodes(runs) && printable_nodes(pages) && printable_nodes(entries));
    assert(nodes[0] == Tree::bare("extractions"@).with_children(runs));
    assert(nodes[1] == Tree::bare("extracted_pages"@).with_children(pages));
    assert(nodes[2] == Tree::bare("toc"@).with_children(entries));
    assert(printable_nodes(nodes));
}

} // verus!
