//! Reading a [`Doc`] from KDL.

use crate::ids::{ExtractionId, PageId, TocEntryId};
use crate::ids::parse_id;
use crate::ir::{
    BBox, Content, ContentHash, Doc, ErrorContent, Extraction, ExtractionView, MarkdownContent,
    ModelId, PageExtraction, PageExtractionView, PageMeta, PageMetrics, PageRef, PageRefView,
    Params, PromptText, StructuredBlock, StructuredPage, StructuredPageView, TocEntry, TocEntryView,
};
use crate::ir::{opt_view, views};
use crate::json::{Json, json_tree};
use crate::kdl_model::{
    IrKdlError, KdlFault, PageParts, RunParts, bbox_of, below, block_of, collecting, doc_in,
    doc_in_text, doc_of, error_of, extraction_of, field_of, first_arg, id_in, layout_step,
    metrics_of, narrow_u16, narrow_u32, outcome, outcome_list, outcome_opt, outcome_plain,
    page_meta_of, page_of, page_ref_of, page_step, param_of, param_step, read_extraction,
    read_float, read_id, read_int, read_optional_float, read_optional_int, read_optional_string,
    read_page, read_page_ref, read_parent, read_string, read_text_arg, read_time, read_toc_entry,
    run_step, structured_of, text_step, toc_entry_of, walk, wrong_kind,
};
use crate::kdl_tree::{
    Atom, Tree, entry_list, kdl_entry, kdl_node, kdl_nodes, kdl_scalar, named, node_list,
};
use crate::number::Real;
use crate::stamp::Timestamp;
use crate::text::same;
use vstd::prelude::*;

verus! {

// ---------------------------------------------------------------------------
// Properties and arguments
// ---------------------------------------------------------------------------

fn wrong_value(field: String, expected: &str, v: &kdl::KdlValue) -> (r: IrKdlError)
    ensures
        r@ == wrong_kind(field@, expected@, kdl_scalar(*v)),
{
    let message = String::from_str(expected).concat(crate::kdl_tree::debug_text(v).as_str());
    IrKdlError::InvalidValue { field, message }
}

fn dotted(node: &str, prop: &str) -> (r: String)
    ensures
        r@ == field_of(node@, prop@),
{
    String::from_str(node).concat(".").concat(prop)
}

fn read_prop_string(n: &kdl::KdlNode, node: &'static str, prop: &'static str) -> (r: Result<
    String,
    IrKdlError,
>)
    ensures
        outcome(r) == read_string(kdl_node(*n), node@, prop@),
{
    match crate::kdl_tree::prop(n, prop) {
        Some(v) => match crate::kdl_tree::atom_of(v) {
            Atom::Str(s) => Ok(s),
            _ => Err(wrong_value(dotted(node, prop), "expected string, got ", v)),
        },
        None => Err(IrKdlError::MissingProp { node, prop }),
    }
}

fn read_prop_int(n: &kdl::KdlNode, node: &'static str, prop: &'static str) -> (r: Result<
    i128,
    IrKdlError,
>)
    ensures
        outcome_plain(r) == read_int(kdl_node(*n), node@, prop@),
{
    match crate::kdl_tree::prop(n, prop) {
        Some(v) => match crate::kdl_tree::atom_of(v) {
            Atom::Int(i) => Ok(i),
            _ => Err(wrong_value(dotted(node, prop), "expected integer, got ", v)),
        },
        None => Err(IrKdlError::MissingProp { node, prop }),
    }
}

fn read_prop_float(n: &kdl::KdlNode, node: &'static str, prop: &'static str) -> (r: Result<
    Real,
    IrKdlError,
>)
    ensures
        outcome(r) == read_float(kdl_node(*n), node@, prop@),
{
    match crate::kdl_tree::prop(n, prop) {
        Some(v) => match crate::kdl_tree::atom_of(v) {
            Atom::Float(t) => Ok(Real::from_shortest(t)),
            Atom::Int(i) => Ok(Real::from_whole(i)),
            _ => Err(wrong_value(dotted(node, prop), "expected number, got ", v)),
        },
        None => Err(IrKdlError::MissingProp { node, prop }),
    }
}

fn read_optional_prop_int(n: &kdl::KdlNode, prop: &str) -> (r: Result<Option<i128>, IrKdlError>)
    ensures
        outcome_plain(r) == read_optional_int(kdl_node(*n), prop@),
{
    match crate::kdl_tree::prop(n, prop) {
        Some(v) => match crate::kdl_tree::atom_of(v) {
            Atom::Int(i) => Ok(Some(i)),
            _ => Err(wrong_value(String::from_str(prop), "expected integer, got ", v)),
        },
        None => Ok(None),
    }
}

fn read_optional_prop_float(n: &kdl::KdlNode, prop: &str) -> (r: Result<Option<Real>, IrKdlError>)
    ensures
        outcome_opt(r) == read_optional_float(kdl_node(*n), prop@),
{
    match crate::kdl_tree::prop(n, prop) {
        Some(v) => match crate::kdl_tree::atom_of(v) {
            Atom::Float(t) => Ok(Some(Real::from_shortest(t))),
            Atom::Int(i) => Ok(Some(Real::from_whole(i))),
            _ => Err(wrong_value(String::from_str(prop), "expected number, got ", v)),
        },
        None => Ok(None),
    }
}

fn read_optional_prop_string(n: &kdl::KdlNode, prop: &str) -> (r: Result<
    Option<String>,
    IrKdlError,
>)
    ensures
        outcome_opt(r) == read_optional_string(kdl_node(*n), prop@),
{
    match crate::kdl_tree::prop(n, prop) {
        Some(v) => match crate::kdl_tree::atom_of(v) {
            Atom::Str(s) => Ok(Some(s)),
            _ => Err(wrong_value(String::from_str(prop), "expected string, got ", v)),
        },
        None => Ok(None),
    }
}

fn id_from(text: String) -> (r: Result<u128, IrKdlError>)
    ensures
        outcome_plain(r) == id_in(text@),
{
    match parse_id(text.as_str()) {
        Ok(id) => Ok(id),
        Err(source) => Err(IrKdlError::InvalidUuid { value: text, source }),
    }
}

fn read_prop_uuid(n: &kdl::KdlNode, node: &'static str, prop: &'static str) -> (r: Result<
    u128,
    IrKdlError,
>)
    ensures
        outcome_plain(r) == read_id(kdl_node(*n), node@, prop@),
{
    match read_prop_string(n, node, prop) {
        Ok(s) => id_from(s),
        Err(e) => Err(e),
    }
}

fn read_prop_timestamp(n: &kdl::KdlNode, node: &'static str, prop: &'static str) -> (r: Result<
    Timestamp,
    IrKdlError,
>)
    ensures
        outcome(r) == read_time(kdl_node(*n), node@, prop@),
{
    match read_prop_string(n, node, prop) {
        Ok(s) => match Timestamp::parse_rfc3339(s.as_str()) {
            Ok(at) => Ok(at),
            Err(source) => Err(IrKdlError::InvalidTimestamp { value: s, source }),
        },
        Err(e) => Err(e),
    }
}

fn read_first_arg_string(n: &kdl::KdlNode, name: &'static str) -> (r: Result<String, IrKdlError>)
    ensures
        outcome(r) == read_text_arg(kdl_node(*n), name@),
{
    let list = crate::kdl_tree::entries(n);
    let ghost all = kdl_node(*n).entries;
    assert(all.skip(0) =~= all);
    let count: usize = list.len();
    for i in 0..count
        invariant
            count == list@.len(),
            entry_list(list@) == all,
            all == kdl_node(*n).entries,
            first_arg(all) == first_arg(all.skip(i as int)),
    {
        let e = &list[i];
        assert(all[i as int] == kdl_entry(*e));
        assert(all.skip(i as int).drop_first() =~= all.skip(i + 1));
        if crate::kdl_tree::entry_name(e).is_none() {
            let v = crate::kdl_tree::entry_value(e);
            return match crate::kdl_tree::atom_of(v) {
                Atom::Str(s) => Ok(s),
                _ => Err(wrong_value(String::from_str(name), "expected string, got ", v)),
            };
        }
    }
    Err(IrKdlError::MissingArg(name))
}

// ---------------------------------------------------------------------------
// Pages
// ---------------------------------------------------------------------------

fn metrics_from_kdl_node(n: &kdl::KdlNode) -> (r: Result<PageMetrics, IrKdlError>)
    ensures
        outcome(r) == metrics_of(kdl_node(*n)),
{
    let elapsed_secs = match read_prop_float(n, "metrics", "elapsed_secs") {
        Ok(v) => v,
        Err(e) => return Err(e),
    };
    let input = match read_optional_prop_int(n, "input_tokens") {
        Ok(v) => v,
        Err(e) => return Err(e),
    };
    let output = match read_optional_prop_int(n, "output_tokens") {
        Ok(v) => v,
        Err(e) => return Err(e),
    };
    Ok(
        PageMetrics {
            elapsed_secs,
            input_tokens: narrowed_u32(input),
            output_tokens: narrowed_u32(output),
        },
    )
}

fn narrowed_u32(o: Option<i128>) -> (r: Option<u32>)
    ensures
        r == narrow_u32(o),
{
    match o {
        Some(i) => Some(#[verifier::truncate] (i as u32)),
        None => None,
    }
}

fn narrowed_u16(o: Option<i128>) -> (r: Option<u16>)
    ensures
        r == narrow_u16(o),
{
    match o {
        Some(i) => Some(#[verifier::truncate] (i as u16)),
        None => None,
    }
}

fn page_meta_from_kdl_node(n: &kdl::KdlNode) -> (r: Result<PageMeta, IrKdlError>)
    ensures
        outcome(r) == page_meta_of(kdl_node(*n)),
{
    let width_pts = match read_prop_float(n, "page_meta", "width_pts") {
        Ok(v) => v,
        Err(e) => return Err(e),
    };
    let height_pts = match read_prop_float(n, "page_meta", "height_pts") {
        Ok(v) => v,
        Err(e) => return Err(e),
    };
    let rotation: i128 = match read_prop_int(n, "page_meta", "rotation_deg") {
        Ok(v) => v,
        Err(e) => return Err(e),
    };
    let dpi = match read_optional_prop_int(n, "dpi") {
        Ok(v) => v,
        Err(e) => return Err(e),
    };
    Ok(
        PageMeta {
            width_pts,
            height_pts,
            rotation_deg: #[verifier::truncate] (rotation as u16),
            dpi: narrowed_u16(dpi),
        },
    )
}

fn bbox_from_kdl_node(n: &kdl::KdlNode) -> (r: Result<BBox, IrKdlError>)
    ensures
        outcome(r) == bbox_of(kdl_node(*n)),
{
    let x = match read_prop_float(n, "block", "x") {
        Ok(v) => v,
        Err(e) => return Err(e),
    };
    let y = match read_prop_float(n, "block", "y") {
        Ok(v) => v,
        Err(e) => return Err(e),
    };
    let w = match read_prop_float(n, "block", "w") {
        Ok(v) => v,
        Err(e) => return Err(e),
    };
    let h = match read_prop_float(n, "block", "h") {
        Ok(v) => v,
        Err(e) => return Err(e),
    };
    Ok(BBox { x, y, w, h })
}

/// The nodes below a node.
fn nodes_below(n: &kdl::KdlNode) -> (r: &[kdl::KdlNode])
    ensures
        node_list(r@) == below(kdl_node(*n)),
{
    match crate::kdl_tree::children(n) {
        Some(d) => crate::kdl_tree::nodes(d),
        None => {
            let none: &[kdl::KdlNode] = &[];
            assert(node_list(none@) =~= Seq::<Tree>::empty());
            none
        },
    }
}

fn block_text(n: &kdl::KdlNode) -> (r: Result<Option<String>, IrKdlError>)
    ensures
        outcome_opt(r) == walk(below(kdl_node(*n)), None, text_step()),
{
    let list = nodes_below(n);
    let ghost all = below(kdl_node(*n));
    assert(all.skip(0) =~= all);
    let mut text: Option<String> = None;
    let count: usize = list.len();
    for i in 0..count
        invariant
            count == list@.len(),
            node_list(list@) == all,
            all == below(kdl_node(*n)),
            walk(all, None, text_step()) == walk(all.skip(i as int), opt_view(text), text_step()),
    {
        let t = &list[i];
        assert(all[i as int] == kdl_node(*t));
        assert(all.skip(i as int).drop_first() =~= all.skip(i + 1));
        if same(crate::kdl_tree::node_name(t), "text") {
            match read_first_arg_string(t, "text") {
                Ok(s) => {
                    text = Some(s);
                },
                Err(e) => return Err(e),
            }
        }
    }
    Ok(text)
}

fn block_from_kdl_node(n: &kdl::KdlNode) -> (r: Result<StructuredBlock, IrKdlError>)
    ensures
        outcome(r) == block_of(kdl_node(*n)),
{
    let kind = match read_prop_string(n, "block", "kind") {
        Ok(v) => v,
        Err(e) => return Err(e),
    };
    let bbox = match bbox_from_kdl_node(n) {
        Ok(v) => v,
        Err(e) => return Err(e),
    };
    let confidence = match read_optional_prop_float(n, "confidence") {
        Ok(v) => v,
        Err(e) => return Err(e),
    };
    match block_text(n) {
        Ok(text) => Ok(StructuredBlock { kind, bbox, text, confidence }),
        Err(e) => Err(e),
    }
}

fn structured_page_from_kdl_node(n: &kdl::KdlNode) -> (r: Result<StructuredPage, IrKdlError>)
    ensures
        outcome(r) == structured_of(kdl_node(*n)),
{
    let list = nodes_below(n);
    let ghost all = below(kdl_node(*n));
    assert(all.skip(0) =~= all);
    let mut page = StructuredPage { blocks: Vec::new(), page_meta: None };
    let ghost start = StructuredPageView { blocks: Seq::empty(), page_meta: None };
    assert(page@.blocks =~= start.blocks);
    let count: usize = list.len();
    for i in 0..count
        invariant
            count == list@.len(),
            node_list(list@) == all,
            structured_of(kdl_node(*n)) == walk(all.skip(i as int), page@, layout_step()),
    {
        let t = &list[i];
        assert(all[i as int] == kdl_node(*t));
        assert(all.skip(i as int).drop_first() =~= all.skip(i + 1));
        let ghost before = page@;
        if same(crate::kdl_tree::node_name(t), "page_meta") {
            match page_meta_from_kdl_node(t) {
                Ok(m) => {
                    page.page_meta = Some(m);
                },
                Err(e) => return Err(e),
            }
        } else if same(crate::kdl_tree::node_name(t), "block") {
            match block_from_kdl_node(t) {
                Ok(b) => {
                    page.blocks.push(b);
                    assert(page@.blocks =~= before.blocks.push(b@));
                },
                Err(e) => return Err(e),
            }
        }
    }
    Ok(page)
}

fn error_from_kdl_node(n: &kdl::KdlNode) -> (r: Result<ErrorContent, IrKdlError>)
    ensures
        outcome(r) == error_of(kdl_node(*n)),
{
    let kind = match read_prop_string(n, "error", "kind") {
        Ok(v) => v,
        Err(e) => return Err(e),
    };
    let message = match read_prop_string(n, "error", "message") {
        Ok(v) => v,
        Err(e) => return Err(e),
    };
    Ok(ErrorContent { kind, message })
}

/// What has been read of a page so far.
struct PageSoFar {
    content: Option<Content>,
    metrics: Option<PageMetrics>,
}

impl PageSoFar {
    spec fn shown(&self) -> PageParts {
        PageParts { content: opt_view(self.content), metrics: opt_view(self.metrics) }
    }
}

/// Read one child of a page.
fn read_page_child(so_far: PageSoFar, t: &kdl::KdlNode) -> (r: Result<PageSoFar, IrKdlError>)
    ensures
        match r {
            Ok(p) => page_step()(so_far.shown(), kdl_node(*t)) == Ok::<PageParts, KdlFault>(
                p.shown(),
            ),
            Err(e) => page_step()(so_far.shown(), kdl_node(*t)) == Err::<PageParts, KdlFault>(e@),
        },
{
    let name = crate::kdl_tree::node_name(t);
    if same(name, "markdown") {
        match read_first_arg_string(t, "markdown") {
            Ok(markdown) => {
                let content = Content::Markdown(MarkdownContent { markdown });
                Ok(PageSoFar { content: Some(content), metrics: so_far.metrics })
            },
            Err(e) => Err(e),
        }
    } else if same(name, "structured") {
        match structured_page_from_kdl_node(t) {
            Ok(p) => Ok(
                PageSoFar { content: Some(Content::Structured(p)), metrics: so_far.metrics },
            ),
            Err(e) => Err(e),
        }
    } else if same(name, "error") {
        match error_from_kdl_node(t) {
            Ok(c) => Ok(PageSoFar { content: Some(Content::Error(c)), metrics: so_far.metrics }),
            Err(e) => Err(e),
        }
    } else if same(name, "metrics") {
        match metrics_from_kdl_node(t) {
            Ok(m) => Ok(PageSoFar { content: so_far.content, metrics: Some(m) }),
            Err(e) => Err(e),
        }
    } else {
        Err(IrKdlError::UnknownContent(String::from_str(name)))
    }
}

fn page_parts(n: &kdl::KdlNode) -> (r: Result<PageSoFar, IrKdlError>)
    ensures
        match r {
            Ok(p) => walk(
                below(kdl_node(*n)),
                (PageParts { content: None, metrics: None }),
                page_step(),
            ) == Ok::<PageParts, KdlFault>(p.shown()),
            Err(e) => walk(
                below(kdl_node(*n)),
                (PageParts { content: None, metrics: None }),
                page_step(),
            ) == Err::<PageParts, KdlFault>(e@),
        },
{
    let list = nodes_below(n);
    let ghost all = below(kdl_node(*n));
    let ghost start = PageParts { content: None, metrics: None };
    assert(all.skip(0) =~= all);
    let mut parts = PageSoFar { content: None, metrics: None };
    let count: usize = list.len();
    for i in 0..count
        invariant
            count == list@.len(),
            node_list(list@) == all,
            all == below(kdl_node(*n)),
            start == (PageParts { content: None, metrics: None }),
            walk(all, start, page_step()) == walk(all.skip(i as int), parts.shown(), page_step()),
    {
        let t = &list[i];
        assert(all[i as int] == kdl_node(*t));
        assert(all.skip(i as int).drop_first() =~= all.skip(i + 1));
        match read_page_child(parts, t) {
            Ok(p) => {
                parts = p;
            },
            Err(e) => return Err(e),
        }
    }
    Ok(parts)
}

fn page_extraction_from_kdl_node(n: &kdl::KdlNode) -> (r: Result<PageExtraction, IrKdlError>)
    ensures
        outcome(r) == page_of(kdl_node(*n)),
{
    let page: i128 = match read_prop_int(n, "page", "page") {
        Ok(v) => v,
        Err(e) => return Err(e),
    };
    let page_uuid: u128 = match read_prop_uuid(n, "page", "page_uuid") {
        Ok(v) => v,
        Err(e) => return Err(e),
    };
    let extraction_uuid: u128 = match read_prop_uuid(n, "page", "extraction_uuid") {
        Ok(v) => v,
        Err(e) => return Err(e),
    };
    let parts = match page_parts(n) {
        Ok(v) => v,
        Err(e) => return Err(e),
    };
    match parts.content {
        None => Err(IrKdlError::MissingNode("page content")),
        Some(content) => Ok(
            PageExtraction {
                page_uuid: PageId(page_uuid),
                page: #[verifier::truncate] (page as u32),
                extraction_uuid: ExtractionId(extraction_uuid),
                content,
                metrics: parts.metrics,
            },
        ),
    }
}

// ---------------------------------------------------------------------------
// Table of contents
// ---------------------------------------------------------------------------

fn page_ref_from_kdl_node(n: &kdl::KdlNode) -> (r: Result<PageRef, IrKdlError>)
    ensures
        outcome(r) == page_ref_of(kdl_node(*n)),
{
    let page: i128 = match read_prop_int(n, "page_ref", "page") {
        Ok(v) => v,
        Err(e) => return Err(e),
    };
    let model = match read_prop_string(n, "page_ref", "model") {
        Ok(v) => v,
        Err(e) => return Err(e),
    };
    let page_uuid: u128 = match read_prop_uuid(n, "page_ref", "page_uuid") {
        Ok(v) => v,
        Err(e) => return Err(e),
    };
    let extraction_uuid: u128 = match read_prop_uuid(n, "page_ref", "extraction_uuid") {
        Ok(v) => v,
        Err(e) => return Err(e),
    };
    Ok(
        PageRef {
            page: #[verifier::truncate] (page as u32),
            model: ModelId(model),
            page_uuid: PageId(page_uuid),
            extraction_uuid: ExtractionId(extraction_uuid),
        },
    )
}

fn page_refs_from_kdl_node(n: &kdl::KdlNode) -> (r: Result<Vec<PageRef>, IrKdlError>)
    ensures
        outcome_list(r) == walk(
            below(kdl_node(*n)),
            Seq::empty(),
            collecting("page_ref"@, read_page_ref()),
        ),
{
    let list = nodes_below(n);
    let ghost all = below(kdl_node(*n));
    let ghost step = collecting("page_ref"@, read_page_ref());
    let mut out: Vec<PageRef> = Vec::new();
    assert(all.skip(0) =~= all);
    assert(views(out@) =~= Seq::<PageRefView>::empty());
    let count: usize = list.len();
    for i in 0..count
        invariant
            count == list@.len(),
            node_list(list@) == all,
            all == below(kdl_node(*n)),
            step == collecting("page_ref"@, read_page_ref()),
            walk(all, Seq::empty(), step) == walk(all.skip(i as int), views(out@), step),
    {
        let t = &list[i];
        assert(all[i as int] == kdl_node(*t));
        assert(all.skip(i as int).drop_first() =~= all.skip(i + 1));
        if same(crate::kdl_tree::node_name(t), "page_ref") {
            match page_ref_from_kdl_node(t) {
                Ok(v) => {
                    let ghost before = views(out@);
                    out.push(v);
                    assert(views(out@) =~= before.push(v@));
                },
                Err(e) => return Err(e),
            }
        }
    }
    Ok(out)
}

fn read_prop_parent(n: &kdl::KdlNode) -> (r: Result<Option<TocEntryId>, IrKdlError>)
    ensures
        outcome_plain(r) == read_parent(kdl_node(*n)),
{
    match read_optional_prop_string(n, "parent") {
        Err(e) => Err(e),
        Ok(None) => Ok(None),
        Ok(Some(s)) => match id_from(s) {
            Ok(id) => Ok(Some(TocEntryId(id))),
            Err(e) => Err(e),
        },
    }
}

fn toc_entry_from_kdl_node(n: &kdl::KdlNode) -> (r: Result<TocEntry, IrKdlError>)
    ensures
        outcome(r) == toc_entry_of(kdl_node(*n)),
{
    let id: u128 = match read_prop_uuid(n, "entry", "id") {
        Ok(v) => v,
        Err(e) => return Err(e),
    };
    let title = match read_prop_string(n, "entry", "title") {
        Ok(v) => v,
        Err(e) => return Err(e),
    };
    let level: i128 = match read_prop_int(n, "entry", "level") {
        Ok(v) => v,
        Err(e) => return Err(e),
    };
    let parent = match read_prop_parent(n) {
        Ok(v) => v,
        Err(e) => return Err(e),
    };
    let built_by: u128 = match read_prop_uuid(n, "entry", "built_by") {
        Ok(v) => v,
        Err(e) => return Err(e),
    };
    match page_refs_from_kdl_node(n) {
        Err(e) => Err(e),
        Ok(page_refs) => Ok(
            TocEntry {
                id: TocEntryId(id),
                title,
                level: #[verifier::truncate] (level as u8),
                parent,
                page_refs,
                built_by: ExtractionId(built_by),
            },
        ),
    }
}

// ---------------------------------------------------------------------------
// Runs
// ---------------------------------------------------------------------------

fn json_param_from_kdl_node(n: &kdl::KdlNode) -> (r: Result<serde_json::Value, IrKdlError>)
    ensures
        match r {
            Ok(v) => param_of(kdl_node(*n)) == Ok::<Json, KdlFault>(json_tree(v)),
            Err(e) => param_of(kdl_node(*n)) == Err::<Json, KdlFault>(e@),
        },
{
    let list = crate::kdl_tree::entries(n);
    if list.len() == 0 {
        return Err(IrKdlError::MissingArg("params child"));
    }
    let e = &list[0];
    assert(kdl_node(*n).entries[0] == kdl_entry(*e));
    let is_json = match crate::kdl_tree::entry_ty(e) {
        Some(ty) => same(ty, "json"),
        None => false,
    };
    match crate::kdl_tree::atom_of(crate::kdl_tree::entry_value(e)) {
        Atom::Str(s) => {
            if is_json {
                match crate::json::decode(s.as_str()) {
                    Ok(v) => Ok(v),
                    Err(source) => {
                        let field = String::from_str(crate::kdl_tree::node_name(n));
                        Err(IrKdlError::InvalidJsonParam { field, source })
                    },
                }
            } else {
                Ok(crate::json::of_string(s))
            }
        },
        Atom::Bool(b) => Ok(crate::json::of_bool(b)),
        Atom::Int(i) => {
            if i > i64::MAX as i128 && i <= u64::MAX as i128 {
                Ok(crate::json::of_u64(i as u64))
            } else {
                Ok(crate::json::of_i64(#[verifier::truncate] (i as i64)))
            }
        },
        Atom::Float(t) => Ok(crate::json::of_real(&Real::from_shortest(t))),
        Atom::Null => Ok(crate::json::of_null()),
    }
}

fn params_from_kdl_node(params: Params, n: &kdl::KdlNode) -> (r: Result<Params, IrKdlError>)
    ensures
        outcome(r) == walk(below(kdl_node(*n)), params@, param_step()),
{
    let list = nodes_below(n);
    let ghost all = below(kdl_node(*n));
    let ghost start = params@;
    let mut out = params;
    assert(all.skip(0) =~= all);
    let count: usize = list.len();
    for i in 0..count
        invariant
            count == list@.len(),
            node_list(list@) == all,
            all == below(kdl_node(*n)),
            start == params@,
            walk(all, start, param_step()) == walk(all.skip(i as int), out@, param_step()),
    {
        let t = &list[i];
        assert(all[i as int] == kdl_node(*t));
        assert(all.skip(i as int).drop_first() =~= all.skip(i + 1));
        match json_param_from_kdl_node(t) {
            Ok(v) => {
                let key = String::from_str(crate::kdl_tree::node_name(t));
                out.insert(key, v);
            },
            Err(e) => return Err(e),
        }
    }
    Ok(out)
}

/// What has been read of a run so far.
struct RunSoFar {
    prompt: String,
    params: Params,
}

impl RunSoFar {
    spec fn shown(&self) -> RunParts {
        RunParts { prompt: self.prompt@, params: self.params@ }
    }
}

/// Read one child of a run.
fn read_run_child(so_far: RunSoFar, t: &kdl::KdlNode) -> (r: Result<RunSoFar, IrKdlError>)
    ensures
        match r {
            Ok(p) => run_step()(so_far.shown(), kdl_node(*t)) == Ok::<RunParts, KdlFault>(
                p.shown(),
            ),
            Err(e) => run_step()(so_far.shown(), kdl_node(*t)) == Err::<RunParts, KdlFault>(e@),
        },
{
    let name = crate::kdl_tree::node_name(t);
    if same(name, "prompt") {
        match read_first_arg_string(t, "prompt") {
            Ok(prompt) => Ok(RunSoFar { prompt, params: so_far.params }),
            Err(e) => Err(e),
        }
    } else if same(name, "params") {
        match params_from_kdl_node(so_far.params, t) {
            Ok(params) => Ok(RunSoFar { prompt: so_far.prompt, params }),
            Err(e) => Err(e),
        }
    } else {
        Ok(so_far)
    }
}

fn run_parts(n: &kdl::KdlNode) -> (r: Result<RunSoFar, IrKdlError>)
    ensures
        match r {
            Ok(p) => walk(
                below(kdl_node(*n)),
                (RunParts { prompt: Seq::empty(), params: Seq::empty() }),
                run_step(),
            ) == Ok::<RunParts, KdlFault>(p.shown()),
            Err(e) => walk(
                below(kdl_node(*n)),
                (RunParts { prompt: Seq::empty(), params: Seq::empty() }),
                run_step(),
            ) == Err::<RunParts, KdlFault>(e@),
        },
{
    let list = nodes_below(n);
    let ghost all = below(kdl_node(*n));
    let ghost start = RunParts { prompt: Seq::empty(), params: Seq::empty() };
    assert(all.skip(0) =~= all);
    let mut parts = RunSoFar { prompt: String::new(), params: Params::new() };
    let count: usize = list.len();
    for i in 0..count
        invariant
            count == list@.len(),
            node_list(list@) == all,
            all == below(kdl_node(*n)),
            start == (RunParts { prompt: Seq::empty(), params: Seq::empty() }),
            walk(all, start, run_step()) == walk(all.skip(i as int), parts.shown(), run_step()),
    {
        let t = &list[i];
        assert(all[i as int] == kdl_node(*t));
        assert(all.skip(i as int).drop_first() =~= all.skip(i + 1));
        match read_run_child(parts, t) {
            Ok(p) => {
                parts = p;
            },
            Err(e) => return Err(e),
        }
    }
    Ok(parts)
}

fn extraction_from_kdl_node(n: &kdl::KdlNode) -> (r: Result<Extraction, IrKdlError>)
    ensures
        outcome(r) == extraction_of(kdl_node(*n)),
{
    let uuid: u128 = match read_prop_uuid(n, "extraction", "uuid") {
        Ok(v) => v,
        Err(e) => return Err(e),
    };
    let model = match read_prop_string(n, "extraction", "model") {
        Ok(v) => v,
        Err(e) => return Err(e),
    };
    let created_at = match read_prop_timestamp(n, "extraction", "created_at") {
        Ok(v) => v,
        Err(e) => return Err(e),
    };
    match run_parts(n) {
        Err(e) => Err(e),
        Ok(parts) => Ok(
            Extraction {
                uuid: ExtractionId(uuid),
                model: ModelId(model),
                prompt: PromptText(parts.prompt),
                params: parts.params,
                created_at,
            },
        ),
    }
}

// ---------------------------------------------------------------------------
// Documents
// ---------------------------------------------------------------------------

/// The first child of that name.
fn child_of<'a>(n: &'a kdl::KdlNode, name: &str) -> (r: Option<&'a kdl::KdlNode>)
    ensures
        match r {
            Some(c) => named(below(kdl_node(*n)), name@) == Some(kdl_node(*c)),
            None => named(below(kdl_node(*n)), name@) is None,
        },
{
    match crate::kdl_tree::children(n) {
        Some(d) => crate::kdl_tree::child(d, name),
        None => None,
    }
}

fn extractions_from_kdl_node(n: &kdl::KdlNode) -> (r: Result<Vec<Extraction>, IrKdlError>)
    ensures
        outcome_list(r) == walk(
            below(kdl_node(*n)),
            Seq::empty(),
            collecting("extraction"@, read_extraction()),
        ),
{
    let list = nodes_below(n);
    let ghost all = below(kdl_node(*n));
    let ghost step = collecting("extraction"@, read_extraction());
    let mut out: Vec<Extraction> = Vec::new();
    assert(all.skip(0) =~= all);
    assert(views(out@) =~= Seq::<ExtractionView>::empty());
    let count: usize = list.len();
    for i in 0..count
        invariant
            count == list@.len(),
            node_list(list@) == all,
            all == below(kdl_node(*n)),
            step == collecting("extraction"@, read_extraction()),
            walk(all, Seq::empty(), step) == walk(all.skip(i as int), views(out@), step),
    {
        let t = &list[i];
        assert(all[i as int] == kdl_node(*t));
        assert(all.skip(i as int).drop_first() =~= all.skip(i + 1));
        if same(crate::kdl_tree::node_name(t), "extraction") {
            match extraction_from_kdl_node(t) {
                Ok(v) => {
                    let ghost before = views(out@);
                    out.push(v);
                    assert(views(out@) =~= before.push(v@));
                },
                Err(e) => return Err(e),
            }
        }
    }
    Ok(out)
}

fn extracted_pages_from_kdl_node(n: &kdl::KdlNode) -> (r: Result<Vec<PageExtraction>, IrKdlError>)
    ensures
        outcome_list(r) == walk(
            below(kdl_node(*n)),
            Seq::empty(),
            collecting("page"@, read_page()),
        ),
{
    let list = nodes_below(n);
    let ghost all = below(kdl_node(*n));
    let ghost step = collecting("page"@, read_page());
    let mut out: Vec<PageExtraction> = Vec::new();
    assert(all.skip(0) =~= all);
    assert(views(out@) =~= Seq::<PageExtractionView>::empty());
    let count: usize = list.len();
    for i in 0..count
        invariant
            count == list@.len(),
            node_list(list@) == all,
            all == below(kdl_node(*n)),
            step == collecting("page"@, read_page()),
            walk(all, Seq::empty(), step) == walk(all.skip(i as int), views(out@), step),
    {
        let t = &list[i];
        assert(all[i as int] == kdl_node(*t));
        assert(all.skip(i as int).drop_first() =~= all.skip(i + 1));
        if same(crate::kdl_tree::node_name(t), "page") {
            match page_extraction_from_kdl_node(t) {
                Ok(v) => {
                    let ghost before = views(out@);
                    out.push(v);
                    assert(views(out@) =~= before.push(v@));
                },
                Err(e) => return Err(e),
            }
        }
    }
    Ok(out)
}

fn toc_from_kdl_node(n: &kdl::KdlNode) -> (r: Result<Vec<TocEntry>, IrKdlError>)
    ensures
        outcome_list(r) == walk(
            below(kdl_node(*n)),
            Seq::empty(),
            collecting("entry"@, read_toc_entry()),
        ),
{
    let list = nodes_below(n);
    let ghost all = below(kdl_node(*n));
    let ghost step = collecting("entry"@, read_toc_entry());
    let mut out: Vec<TocEntry> = Vec::new();
    assert(all.skip(0) =~= all);
    assert(views(out@) =~= Seq::<TocEntryView>::empty());
    let count: usize = list.len();
    for i in 0..count
        invariant
            count == list@.len(),
            node_list(list@) == all,
            all == below(kdl_node(*n)),
            step == collecting("entry"@, read_toc_entry()),
            walk(all, Seq::empty(), step) == walk(all.skip(i as int), views(out@), step),
    {
        let t = &list[i];
        assert(all[i as int] == kdl_node(*t));
        assert(all.skip(i as int).drop_first() =~= all.skip(i + 1));
        if same(crate::kdl_tree::node_name(t), "entry") {
            match toc_entry_from_kdl_node(t) {
                Ok(v) => {
                    let ghost before = views(out@);
                    out.push(v);
                    assert(views(out@) =~= before.push(v@));
                },
                Err(e) => return Err(e),
            }
        }
    }
    Ok(out)
}

fn doc_from_kdl_node(n: &kdl::KdlNode) -> (r: Result<Doc, IrKdlError>)
    ensures
        outcome(r) == doc_of(kdl_node(*n)),
{
    let schema_version: i128 = match read_prop_int(n, "doc", "schema_version") {
        Ok(v) => v,
        Err(e) => return Err(e),
    };
    let content_hash = match read_prop_string(n, "doc", "content_hash") {
        Ok(v) => v,
        Err(e) => return Err(e),
    };
    let extractions = match child_of(n, "extractions") {
        Some(list) => match extractions_from_kdl_node(list) {
            Ok(v) => v,
            Err(e) => return Err(e),
        },
        None => Vec::new(),
    };
    let extracted_pages = match child_of(n, "extracted_pages") {
        Some(list) => match extracted_pages_from_kdl_node(list) {
            Ok(v) => v,
            Err(e) => return Err(e),
        },
        None => Vec::new(),
    };
    let toc = match child_of(n, "toc") {
        Some(list) => match toc_from_kdl_node(list) {
            Ok(v) => v,
            Err(e) => return Err(e),
        },
        None => Vec::new(),
    };
    proof {
        let t = kdl_node(*n);
        assert(named(below(t), "extractions"@) is None ==> views(extractions@) =~= Seq::empty());
        assert(named(below(t), "extracted_pages"@) is None ==> views(extracted_pages@)
            =~= Seq::empty());
        assert(named(below(t), "toc"@) is None ==> views(toc@) =~= Seq::empty());
    }
    Ok(
        Doc {
            schema_version: #[verifier::truncate] (schema_version as u32),
            content_hash: ContentHash(content_hash),
            extractions,
            extracted_pages,
            toc,
        },
    )
}

impl Doc {
    /// The document that a KDL text holds.
    pub fn from_kdl_str(s: &str) -> (r: Result<Doc, IrKdlError>)
        ensures
            outcome(r) == doc_in_text(s@),
    {
        match crate::kdl_tree::parse(s) {
            Ok(document) => Doc::from_kdl_document(&document),
            Err(e) => Err(IrKdlError::Parse(e)),
        }
    }

    /// The document that a KDL document holds.
    pub fn from_kdl_document(document: &kdl::KdlDocument) -> (r: Result<Doc, IrKdlError>)
        ensures
            outcome(r) == doc_in(kdl_nodes(*document)),
    {
        match crate::kdl_tree::child(document, "doc") {
            None => Err(IrKdlError::MissingNode("doc")),
            Some(root) => doc_from_kdl_node(root),
        }
    }
}

} // verus!
