//! Writing a [`Doc`] as KDL.

use crate::ids::{id_text, uuid_text};
use crate::ir::views;
use crate::ir::{
    Content, Doc, DocView, Extraction, ExtractionView, PageExtraction, PageExtractionView, PageMeta,
    PageMetrics, PageRef, PageRefView, Params, StructuredBlock, StructuredBlockView,
    StructuredPage, TocEntry, TocEntryView,
};
use crate::json::{Json, Shape, json_text, json_tree};
use crate::kdl_laws::{
    doc_back, doc_printable, survives,
};
use crate::kdl_model::{KdlFault, doc_in_text};
use crate::kdl_model::{
    arg, block_tree, content_tree, doc_rereads, doc_tree, extraction_rereads, extraction_tree,
    float_prop, id_rereads, int_prop, metrics_tree, page_meta_tree, page_ref_rereads,
    page_ref_tree, page_rereads, page_tree, param_rereads, param_tree, str_prop, structured_tree,
    text_node, toc_entry_rereads, toc_entry_tree,
};
use crate::kdl_tree::{
    Atom, Entry, Scalar, Tree, kdl_node, kdl_nodes, kdl_text, named, plain_document, plain_node,
    printable_nodes,
};
use crate::number::Real;
use vstd::prelude::*;

verus! {

// ---------------------------------------------------------------------------
// Writing
// ---------------------------------------------------------------------------

fn push_prop_string(n: &mut kdl::KdlNode, name: &str, value: &str)
    ensures
        kdl_node(*final(n)) == kdl_node(*old(n)).with_entry(str_prop(name@, value@)),
        plain_node(*final(n)) == plain_node(*old(n)),
{
    let v = crate::kdl_tree::value_of(Atom::Str(String::from_str(value)));
    crate::kdl_tree::push_entry(n, crate::kdl_tree::property(name, v));
}

fn push_prop_int(n: &mut kdl::KdlNode, name: &str, value: i128)
    ensures
        kdl_node(*final(n)) == kdl_node(*old(n)).with_entry(int_prop(name@, value)),
        plain_node(*final(n)) == plain_node(*old(n)),
{
    let v = crate::kdl_tree::value_of(Atom::Int(value));
    crate::kdl_tree::push_entry(n, crate::kdl_tree::property(name, v));
}

fn push_prop_float(n: &mut kdl::KdlNode, name: &str, value: &Real)
    ensures
        kdl_node(*final(n)) == kdl_node(*old(n)).with_entry(float_prop(name@, value@)),
        plain_node(*final(n)) == plain_node(*old(n)),
{
    let v = crate::kdl_tree::value_of(Atom::Float(String::from_str(value.text())));
    crate::kdl_tree::push_entry(n, crate::kdl_tree::property(name, v));
}

fn push_arg(n: &mut kdl::KdlNode, value: Atom)
    requires
        value.is_shortest(),
    ensures
        kdl_node(*final(n)) == kdl_node(*old(n)).with_entry(arg(value@)),
        plain_node(*final(n)) == plain_node(*old(n)),
{
    let v = crate::kdl_tree::value_of(value);
    crate::kdl_tree::push_entry(n, crate::kdl_tree::argument(v));
}

fn new_text_node(name: &str, value: &str) -> (r: kdl::KdlNode)
    ensures
        kdl_node(r) == text_node(name@, value@),
        plain_node(r),
{
    let mut n = crate::kdl_tree::new_node(name);
    push_arg(&mut n, Atom::Str(String::from_str(value)));
    n
}

fn metrics_to_kdl_node(m: &PageMetrics) -> (r: kdl::KdlNode)
    ensures
        kdl_node(r) == metrics_tree(m@),
        plain_node(r),
{
    let mut n = crate::kdl_tree::new_node("metrics");
    push_prop_float(&mut n, "elapsed_secs", &m.elapsed_secs);
    if let Some(t) = m.input_tokens {
        push_prop_int(&mut n, "input_tokens", t as i128);
    }
    if let Some(t) = m.output_tokens {
        push_prop_int(&mut n, "output_tokens", t as i128);
    }
    n
}

fn page_meta_to_kdl_node(m: &PageMeta) -> (r: kdl::KdlNode)
    ensures
        kdl_node(r) == page_meta_tree(m@),
        plain_node(r),
{
    let mut n = crate::kdl_tree::new_node("page_meta");
    push_prop_float(&mut n, "width_pts", &m.width_pts);
    push_prop_float(&mut n, "height_pts", &m.height_pts);
    push_prop_int(&mut n, "rotation_deg", m.rotation_deg as i128);
    if let Some(dpi) = m.dpi {
        push_prop_int(&mut n, "dpi", dpi as i128);
    }
    n
}

fn block_to_kdl_node(b: &StructuredBlock) -> (r: kdl::KdlNode)
    ensures
        kdl_node(r) == block_tree(b@),
        plain_node(r),
{
    let mut n = crate::kdl_tree::new_node("block");
    push_prop_string(&mut n, "kind", b.kind.as_str());
    push_prop_float(&mut n, "x", &b.bbox.x);
    push_prop_float(&mut n, "y", &b.bbox.y);
    push_prop_float(&mut n, "w", &b.bbox.w);
    push_prop_float(&mut n, "h", &b.bbox.h);
    if let Some(c) = &b.confidence {
        push_prop_float(&mut n, "confidence", c);
    }
    if let Some(t) = &b.text {
        let mut children = crate::kdl_tree::new_document();
        crate::kdl_tree::push_node(&mut children, new_text_node("text", t.as_str()));
        assert(kdl_nodes(children) =~= seq![text_node("text"@, t@)]);
        crate::kdl_tree::set_children(&mut n, children);
    }
    n
}

fn structured_page_to_kdl_node(p: &StructuredPage) -> (r: kdl::KdlNode)
    ensures
        kdl_node(r) == structured_tree(p@),
        plain_node(r),
{
    let mut n = crate::kdl_tree::new_node("structured");
    let mut children = crate::kdl_tree::new_document();
    if let Some(meta) = &p.page_meta {
        crate::kdl_tree::push_node(&mut children, page_meta_to_kdl_node(meta));
        assert(kdl_nodes(children) =~= seq![page_meta_tree(meta@)]);
    }
    let ghost meta = kdl_nodes(children);
    let ghost blocks = p@.blocks.map_values(|b: StructuredBlockView| block_tree(b));
    assert(meta =~= meta + blocks.take(0));
    for i in 0..p.blocks.len()
        invariant
            kdl_nodes(children) == meta + blocks.take(i as int),
            plain_document(children),
            blocks == p@.blocks.map_values(|b: StructuredBlockView| block_tree(b)),
    {
        crate::kdl_tree::push_node(&mut children, block_to_kdl_node(&p.blocks[i]));
        assert(blocks[i as int] == block_tree(p.blocks@[i as int]@));
        assert(kdl_nodes(children) =~= meta + blocks.take(i + 1));
    }
    assert(blocks.take(blocks.len() as int) =~= blocks);
    crate::kdl_tree::set_children(&mut n, children);
    n
}

fn content_to_kdl_node(c: &Content) -> (r: kdl::KdlNode)
    ensures
        kdl_node(r) == content_tree(c@),
        plain_node(r),
{
    match c {
        Content::Markdown(m) => new_text_node("markdown", m.markdown.as_str()),
        Content::Structured(p) => structured_page_to_kdl_node(p),
        Content::Error(e) => {
            let mut n = crate::kdl_tree::new_node("error");
            push_prop_string(&mut n, "kind", e.kind.as_str());
            push_prop_string(&mut n, "message", e.message.as_str());
            n
        },
    }
}

fn push_prop_id(n: &mut kdl::KdlNode, name: &str, id: u128)
    ensures
        kdl_node(*final(n)) == kdl_node(*old(n)).with_entry(str_prop(name@, uuid_text(id))),
        plain_node(*final(n)) == plain_node(*old(n)),
        id_rereads(id),
{
    let text = id_text(id);
    push_prop_string(n, name, text.as_str());
}

fn page_extraction_to_kdl_node(p: &PageExtraction) -> (r: kdl::KdlNode)
    ensures
        kdl_node(r) == page_tree(p@),
        plain_node(r),
        page_rereads(p@),
{
    let mut n = crate::kdl_tree::new_node("page");
    push_prop_int(&mut n, "page", p.page as i128);
    push_prop_id(&mut n, "page_uuid", p.page_uuid.0);
    push_prop_id(&mut n, "extraction_uuid", p.extraction_uuid.0);
    let mut children = crate::kdl_tree::new_document();
    crate::kdl_tree::push_node(&mut children, content_to_kdl_node(&p.content));
    assert(kdl_nodes(children) =~= seq![content_tree(p@.content)] + Seq::<Tree>::empty());
    if let Some(metrics) = &p.metrics {
        crate::kdl_tree::push_node(&mut children, metrics_to_kdl_node(metrics));
        assert(kdl_nodes(children) =~= seq![content_tree(p@.content)] + seq![metrics_tree(metrics@)]);
    }
    crate::kdl_tree::set_children(&mut n, children);
    n
}

fn page_ref_to_kdl_node(p: &PageRef) -> (r: kdl::KdlNode)
    ensures
        kdl_node(r) == page_ref_tree(p@),
        plain_node(r),
        page_ref_rereads(p@),
{
    let mut n = crate::kdl_tree::new_node("page_ref");
    push_prop_int(&mut n, "page", p.page as i128);
    push_prop_string(&mut n, "model", p.model.0.as_str());
    push_prop_id(&mut n, "page_uuid", p.page_uuid.0);
    push_prop_id(&mut n, "extraction_uuid", p.extraction_uuid.0);
    n
}

fn toc_entry_to_kdl_node(e: &TocEntry) -> (r: kdl::KdlNode)
    ensures
        kdl_node(r) == toc_entry_tree(e@),
        plain_node(r),
        toc_entry_rereads(e@),
{
    let mut n = crate::kdl_tree::new_node("entry");
    push_prop_id(&mut n, "id", e.id.0);
    push_prop_string(&mut n, "title", e.title.as_str());
    push_prop_int(&mut n, "level", e.level as i128);
    if let Some(parent) = e.parent {
        push_prop_id(&mut n, "parent", parent.0);
    }
    push_prop_id(&mut n, "built_by", e.built_by.0);
    let mut children = crate::kdl_tree::new_document();
    let ghost refs = e@.page_refs.map_values(|r: PageRefView| page_ref_tree(r));
    assert(kdl_nodes(children) =~= refs.take(0));
    for i in 0..e.page_refs.len()
        invariant
            kdl_nodes(children) == refs.take(i as int),
            plain_document(children),
            refs == e@.page_refs.map_values(|r: PageRefView| page_ref_tree(r)),
            forall|j: int| 0 <= j < i ==> page_ref_rereads(#[trigger] e@.page_refs[j]),
    {
        crate::kdl_tree::push_node(&mut children, page_ref_to_kdl_node(&e.page_refs[i]));
        assert(e@.page_refs[i as int] == e.page_refs@[i as int]@);
        assert(kdl_nodes(children) =~= refs.take(i + 1));
    }
    assert(refs.take(refs.len() as int) =~= refs);
    crate::kdl_tree::set_children(&mut n, children);
    n
}

/// Write a parameter as a node `key value`.
fn json_param_to_kdl_node(key: &str, value: &serde_json::Value) -> (r: kdl::KdlNode)
    ensures
        kdl_node(r) == param_tree((key@, json_tree(*value))),
        plain_node(r),
        param_rereads(json_tree(*value)),
{
    let mut n = crate::kdl_tree::new_node(key);
    match crate::json::shape(value) {
        Shape::Bool(b) => push_arg(&mut n, Atom::Bool(b)),
        Shape::Number => {
            if let Some(i) = crate::json::as_i64(value) {
                push_arg(&mut n, Atom::Int(i as i128));
            } else if let Some(u) = crate::json::as_u64(value) {
                push_arg(&mut n, Atom::Int(u as i128));
            } else if let Some(t) = crate::json::as_real(value) {
                push_arg(&mut n, Atom::Float(String::from_str(t.text())));
            } else {
                push_json_typed_arg(&mut n, value);
            }
        },
        Shape::Str(s) => push_arg(&mut n, Atom::Str(String::from_str(s))),
        Shape::Null => push_arg(&mut n, Atom::Null),
        Shape::Array(_) => push_json_typed_arg(&mut n, value),
        Shape::Object => push_json_typed_arg(&mut n, value),
    }
    n
}

fn push_json_typed_arg(n: &mut kdl::KdlNode, value: &serde_json::Value)
    ensures
        kdl_node(*final(n)) == kdl_node(*old(n)).with_entry(
            (Entry {
                name: None,
                ty: Some("json"@),
                value: Scalar::Str(json_text(json_tree(*value))),
            }),
        ),
        plain_node(*final(n)) == plain_node(*old(n)),
        param_rereads(json_tree(*value)),
{
    let v = crate::kdl_tree::value_of(Atom::Str(crate::json::encode(value)));
    let mut e = crate::kdl_tree::argument(v);
    crate::kdl_tree::annotate(&mut e, "json");
    crate::kdl_tree::push_entry(n, e);
}

fn params_to_kdl_node(params: &Params) -> (r: kdl::KdlNode)
    ensures
        kdl_node(r) == Tree::bare("params"@).with_children(
            params@.map_values(|p: (Seq<char>, Json)| param_tree(p)),
        ),
        plain_node(r),
        forall|i: int| 0 <= i < params@.len() ==> param_rereads((#[trigger] params@[i]).1),
{
    let mut n = crate::kdl_tree::new_node("params");
    let mut children = crate::kdl_tree::new_document();
    let ghost all = params@.map_values(|p: (Seq<char>, Json)| param_tree(p));
    assert(kdl_nodes(children) =~= all.take(0));
    let count: usize = params.len();
    for i in 0..count
        invariant
            count == params@.len(),
            kdl_nodes(children) == all.take(i as int),
            plain_document(children),
            all == params@.map_values(|p: (Seq<char>, Json)| param_tree(p)),
            forall|j: int| 0 <= j < i ==> param_rereads((#[trigger] params@[j]).1),
    {
        let p = params.at(i);
        crate::kdl_tree::push_node(&mut children, json_param_to_kdl_node(p.key.as_str(), &p.value));
        assert(all[i as int] == param_tree(p@));
        assert(kdl_nodes(children) =~= all.take(i + 1));
    }
    assert(all.take(all.len() as int) =~= all);
    crate::kdl_tree::set_children(&mut n, children);
    n
}

fn extraction_to_kdl_node(e: &Extraction) -> (r: kdl::KdlNode)
    ensures
        kdl_node(r) == extraction_tree(e@),
        plain_node(r),
        extraction_rereads(e@),
{
    let mut n = crate::kdl_tree::new_node("extraction");
    push_prop_id(&mut n, "uuid", e.uuid.0);
    push_prop_string(&mut n, "model", e.model.0.as_str());
    let created_at = e.created_at.to_rfc3339();
    push_prop_string(&mut n, "created_at", created_at.as_str());
    let mut children = crate::kdl_tree::new_document();
    crate::kdl_tree::push_node(&mut children, new_text_node("prompt", e.prompt.0.as_str()));
    let ghost head = seq![text_node("prompt"@, e@.prompt)];
    assert(kdl_nodes(children) =~= head + Seq::<Tree>::empty());
    if e.params.len() > 0 {
        let ordered = e.params.at(0);
        let params = params_to_kdl_node(&e.params);
        let ghost tail = seq![kdl_node(params)];
        crate::kdl_tree::push_node(&mut children, params);
        assert(kdl_nodes(children) =~= head + tail);
    }
    crate::kdl_tree::set_children(&mut n, children);
    n
}

fn extractions_to_kdl_node(list: &Vec<Extraction>) -> (r: kdl::KdlNode)
    ensures
        kdl_node(r) == Tree::bare("extractions"@).with_children(
            views(list@).map_values(|e: ExtractionView| extraction_tree(e)),
        ),
        plain_node(r),
        forall|i: int|
            0 <= i < views(list@).len() ==> extraction_rereads(#[trigger] views(list@)[i]),
{
    let mut n = crate::kdl_tree::new_node("extractions");
    let mut children = crate::kdl_tree::new_document();
    let ghost all = views(list@).map_values(|e: ExtractionView| extraction_tree(e));
    assert(kdl_nodes(children) =~= all.take(0));
    for i in 0..list.len()
        invariant
            kdl_nodes(children) == all.take(i as int),
            plain_document(children),
            all == views(list@).map_values(|e: ExtractionView| extraction_tree(e)),
            forall|j: int| 0 <= j < i ==> extraction_rereads(#[trigger] views(list@)[j]),
    {
        crate::kdl_tree::push_node(&mut children, extraction_to_kdl_node(&list[i]));
        assert(all[i as int] == extraction_tree(list@[i as int]@));
        assert(kdl_nodes(children) =~= all.take(i + 1));
    }
    assert(all.take(all.len() as int) =~= all);
    crate::kdl_tree::set_children(&mut n, children);
    n
}

fn extracted_pages_to_kdl_node(list: &Vec<PageExtraction>) -> (r: kdl::KdlNode)
    ensures
        kdl_node(r) == Tree::bare("extracted_pages"@).with_children(
            views(list@).map_values(|p: PageExtractionView| page_tree(p)),
        ),
        plain_node(r),
        forall|i: int| 0 <= i < views(list@).len() ==> page_rereads(#[trigger] views(list@)[i]),
{
    let mut n = crate::kdl_tree::new_node("extracted_pages");
    let mut children = crate::kdl_tree::new_document();
    let ghost all = views(list@).map_values(|p: PageExtractionView| page_tree(p));
    assert(kdl_nodes(children) =~= all.take(0));
    for i in 0..list.len()
        invariant
            kdl_nodes(children) == all.take(i as int),
            plain_document(children),
            all == views(list@).map_values(|p: PageExtractionView| page_tree(p)),
            forall|j: int| 0 <= j < i ==> page_rereads(#[trigger] views(list@)[j]),
    {
        crate::kdl_tree::push_node(&mut children, page_extraction_to_kdl_node(&list[i]));
        assert(all[i as int] == page_tree(list@[i as int]@));
        assert(kdl_nodes(children) =~= all.take(i + 1));
    }
    assert(all.take(all.len() as int) =~= all);
    crate::kdl_tree::set_children(&mut n, children);
    n
}

fn toc_to_kdl_node(list: &Vec<TocEntry>) -> (r: kdl::KdlNode)
    ensures
        kdl_node(r) == Tree::bare("toc"@).with_children(
            views(list@).map_values(|e: TocEntryView| toc_entry_tree(e)),
        ),
        plain_node(r),
        forall|i: int|
            0 <= i < views(list@).len() ==> toc_entry_rereads(#[trigger] views(list@)[i]),
{
    let mut n = crate::kdl_tree::new_node("toc");
    let mut children = crate::kdl_tree::new_document();
    let ghost all = views(list@).map_values(|e: TocEntryView| toc_entry_tree(e));
    assert(kdl_nodes(children) =~= all.take(0));
    for i in 0..list.len()
        invariant
            kdl_nodes(children) == all.take(i as int),
            plain_document(children),
            all == views(list@).map_values(|e: TocEntryView| toc_entry_tree(e)),
            forall|j: int| 0 <= j < i ==> toc_entry_rereads(#[trigger] views(list@)[j]),
    {
        crate::kdl_tree::push_node(&mut children, toc_entry_to_kdl_node(&list[i]));
        assert(all[i as int] == toc_entry_tree(list@[i as int]@));
        assert(kdl_nodes(children) =~= all.take(i + 1));
    }
    assert(all.take(all.len() as int) =~= all);
    crate::kdl_tree::set_children(&mut n, children);
    n
}

fn doc_to_kdl_node(d: &Doc) -> (r: kdl::KdlNode)
    ensures
        kdl_node(r) == doc_tree(d@),
        plain_node(r),
        doc_rereads(d@),
{
    let mut n = crate::kdl_tree::new_node("doc");
    push_prop_int(&mut n, "schema_version", d.schema_version as i128);
    push_prop_string(&mut n, "content_hash", d.content_hash.0.as_str());
    let mut children = crate::kdl_tree::new_document();
    crate::kdl_tree::push_node(&mut children, extractions_to_kdl_node(&d.extractions));
    crate::kdl_tree::push_node(&mut children, extracted_pages_to_kdl_node(&d.extracted_pages));
    crate::kdl_tree::push_node(&mut children, toc_to_kdl_node(&d.toc));
    assert(kdl_nodes(children) =~= doc_tree(d@).children->0);
    crate::kdl_tree::set_children(&mut n, children);
    n
}

impl Doc {
    /// The document as KDL text. Where the document survives being written,
    /// [`Doc::from_kdl_str`] reads it back.
    pub fn to_kdl_string(&self) -> (r: String)
        ensures
            r@ == kdl_text(seq![doc_tree(self@)]),
            survives(self@) ==> doc_in_text(r@) == Ok::<DocView, KdlFault>(self@),
    {
        let mut document = crate::kdl_tree::new_document();
        crate::kdl_tree::push_node(&mut document, doc_to_kdl_node(self));
        let ghost nodes = seq![doc_tree(self@)];
        assert(kdl_nodes(document) =~= nodes);
        let text = crate::kdl_tree::print(document);
        proof {
            if survives(self@) {
                doc_printable(self@);
                assert(printable_nodes(nodes));
                doc_back(self@);
                assert(named(nodes, "doc"@) == Some(doc_tree(self@)));
            }
        }
        text
    }
}

} // verus!
