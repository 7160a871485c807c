//! The on-disk format of a [`Doc`]: KDL.
//!
//! A document is a `doc` node with three lists as children:
//!
//! ```kdl
//! doc schema_version=1 content_hash="..." {
//!     extractions {
//!         extraction uuid="..." model="glm-ocr@v1" created_at="..." {
//!             prompt "..."
//!             params {
//!                 dpi 200
//!             }
//!         }
//!     }
//!     extracted_pages {
//!         page page=0 page_uuid="..." extraction_uuid="..." {
//!             markdown "..."
//!             metrics elapsed_secs=1.4 input_tokens=1024 output_tokens=217
//!         }
//!     }
//!     toc {
//!         entry id="..." title="..." level=1 built_by="..." {
//!             page_ref page=14 model="..." page_uuid="..." extraction_uuid="..."
//!         }
//!     }
//! }
//! ```

use crate::ids::{ExtractionId, PageId, TocEntryId};
use crate::ids::{reads_as_id, uuid_parsed, uuid_text};
use crate::ir::{
    BBoxView, ContentView, DocView, ErrorContentView, ExtractionView, PageExtractionView,
    PageMetaView, PageMetricsView, PageRefView, StructuredBlockView, StructuredPageView,
    TocEntryView,
};
use crate::ir::{opt_view, views, with_param};
use crate::sorted::keys_ordered;
use crate::json::{
    Json, MAX_DEPTH, Num, decodes_to, json_decoded, json_text, rereads, texts_printable,
};
use crate::json::{real_json, whole_json};
use crate::kdl_tree::{
    Entry, Scalar, Tree, kdl_parsed, named, printable, prop_in, scalar_debug,
};
use crate::number::double_text;
use crate::stamp::{
    YEAR_9999_END, YEAR_ZERO, is_stamp_text, reads_as_instant, rfc3339_parsed, rfc3339_text,
};
use crate::text::signed_decimal;
use vstd::prelude::*;

verus! {

// ---------------------------------------------------------------------------
// Errors
// ---------------------------------------------------------------------------

/// Why a text is no document.
#[derive(Debug, Clone, PartialEq)]
pub enum IrKdlError {
    /// The text is not KDL.
    Parse(String),
    MissingNode(&'static str),
    MissingProp { node: &'static str, prop: &'static str },
    MissingArg(&'static str),
    InvalidValue { field: String, message: String },
    UnknownContent(String),
    InvalidUuid { value: String, source: String },
    InvalidTimestamp { value: String, source: String },
    InvalidJsonParam { field: String, source: String },
}

pub enum KdlFault {
    Parse(Seq<char>),
    MissingNode(Seq<char>),
    MissingProp { node: Seq<char>, prop: Seq<char> },
    MissingArg(Seq<char>),
    InvalidValue { field: Seq<char>, message: Seq<char> },
    UnknownContent(Seq<char>),
    InvalidUuid { value: Seq<char>, source: Seq<char> },
    InvalidTimestamp { value: Seq<char>, source: Seq<char> },
    InvalidJsonParam { field: Seq<char>, source: Seq<char> },
}

impl View for IrKdlError {
    type V = KdlFault;

    open spec fn view(&self) -> KdlFault {
        match self {
            IrKdlError::Parse(s) => KdlFault::Parse(s@),
            IrKdlError::MissingNode(s) => KdlFault::MissingNode(s@),
            IrKdlError::MissingProp { node, prop } => KdlFault::MissingProp {
                node: node@,
                prop: prop@,
            },
            IrKdlError::MissingArg(s) => KdlFault::MissingArg(s@),
            IrKdlError::InvalidValue { field, message } => KdlFault::InvalidValue {
                field: field@,
                message: message@,
            },
            IrKdlError::UnknownContent(s) => KdlFault::UnknownContent(s@),
            IrKdlError::InvalidUuid { value, source } => KdlFault::InvalidUuid {
                value: value@,
                source: source@,
            },
            IrKdlError::InvalidTimestamp { value, source } => KdlFault::InvalidTimestamp {
                value: value@,
                source: source@,
            },
            IrKdlError::InvalidJsonParam { field, source } => KdlFault::InvalidJsonParam {
                field: field@,
                source: source@,
            },
        }
    }
}

/// The message for humans.
pub open spec fn fault_message(f: KdlFault) -> Seq<char> {
    match f {
        KdlFault::Parse(s) => "kdl parse: "@ + s,
        KdlFault::MissingNode(s) => "missing required node `"@ + s + "`"@,
        KdlFault::MissingProp { node, prop } => "missing required property `"@ + prop + "` on `"@
            + node + "`"@,
        KdlFault::MissingArg(s) => "missing required argument on `"@ + s + "`"@,
        KdlFault::InvalidValue { field, message } => "invalid value for `"@ + field + "`: "@
            + message,
        KdlFault::UnknownContent(s) => "unknown content variant `"@ + s
            + "` (expected `markdown`, `structured`, or `error`)"@,
        KdlFault::InvalidUuid { value, source } => "invalid uuid `"@ + value + "`: "@ + source,
        KdlFault::InvalidTimestamp { value, source } => "invalid timestamp `"@ + value + "`: "@
            + source,
        KdlFault::InvalidJsonParam { field, source } => "invalid json for params field `"@ + field
            + "`: "@ + source,
    }
}

impl IrKdlError {
    /// The message for humans.
    pub fn message(&self) -> (r: String)
        ensures
            r@ == fault_message(self@),
    {
        match self {
            IrKdlError::Parse(s) => String::from_str("kdl parse: ").concat(s.as_str()),
            IrKdlError::MissingNode(s) => String::from_str("missing required node `").concat(
                s,
            ).concat("`"),
            IrKdlError::MissingProp { node, prop } => String::from_str(
                "missing required property `",
            ).concat(prop).concat("` on `").concat(node).concat("`"),
            IrKdlError::MissingArg(s) => String::from_str("missing required argument on `").concat(
                s,
            ).concat("`"),
            IrKdlError::InvalidValue { field, message } => String::from_str(
                "invalid value for `",
            ).concat(field.as_str()).concat("`: ").concat(message.as_str()),
            IrKdlError::UnknownContent(s) => String::from_str("unknown content variant `").concat(
                s.as_str(),
            ).concat("` (expected `markdown`, `structured`, or `error`)"),
            IrKdlError::InvalidUuid { value, source } => String::from_str("invalid uuid `").concat(
                value.as_str(),
            ).concat("`: ").concat(source.as_str()),
            IrKdlError::InvalidTimestamp { value, source } => String::from_str(
                "invalid timestamp `",
            ).concat(value.as_str()).concat("`: ").concat(source.as_str()),
            IrKdlError::InvalidJsonParam { field, source } => String::from_str(
                "invalid json for params field `",
            ).concat(field.as_str()).concat("`: ").concat(source.as_str()),
        }
    }
}

/// What a decoder returned, by the views.
pub open spec fn outcome<T: View>(r: Result<T, IrKdlError>) -> Result<T::V, KdlFault> {
    match r {
        Ok(v) => Ok(v@),
        Err(e) => Err(e@),
    }
}

/// What a decoder of a list returned, by the views.
pub open spec fn outcome_list<T: View>(r: Result<Vec<T>, IrKdlError>) -> Result<
    Seq<T::V>,
    KdlFault,
> {
    match r {
        Ok(v) => Ok(views(v@)),
        Err(e) => Err(e@),
    }
}

/// What a reader of a plain value returned, the error by its view.
pub open spec fn outcome_plain<T>(r: Result<T, IrKdlError>) -> Result<T, KdlFault> {
    match r {
        Ok(v) => Ok(v),
        Err(e) => Err(e@),
    }
}

/// What a reader of an optional value returned, by the views.
pub open spec fn outcome_opt<T: View>(r: Result<Option<T>, IrKdlError>) -> Result<
    Option<T::V>,
    KdlFault,
> {
    match r {
        Ok(v) => Ok(opt_view(v)),
        Err(e) => Err(e@),
    }
}

// ---------------------------------------------------------------------------
// The trees that records are written as
// ---------------------------------------------------------------------------

pub open spec fn str_prop(name: Seq<char>, s: Seq<char>) -> Entry {
    Entry { name: Some(name), ty: None, value: Scalar::Str(s) }
}

pub open spec fn int_prop(name: Seq<char>, i: i128) -> Entry {
    Entry { name: Some(name), ty: None, value: Scalar::Int(i) }
}

pub open spec fn float_prop(name: Seq<char>, t: Seq<char>) -> Entry {
    Entry { name: Some(name), ty: None, value: Scalar::Float(t) }
}

pub open spec fn arg(value: Scalar) -> Entry {
    Entry { name: None, ty: None, value }
}

/// A node with one text argument.
pub open spec fn text_node(name: Seq<char>, s: Seq<char>) -> Tree {
    Tree::bare(name).with_entry(arg(Scalar::Str(s)))
}

pub open spec fn metrics_tree(m: PageMetricsView) -> Tree {
    let t = Tree::bare("metrics"@).with_entry(float_prop("elapsed_secs"@, m.elapsed_secs));
    let t = match m.input_tokens {
        Some(n) => t.with_entry(int_prop("input_tokens"@, n as i128)),
        None => t,
    };
    match m.output_tokens {
        Some(n) => t.with_entry(int_prop("output_tokens"@, n as i128)),
        None => t,
    }
}

pub open spec fn page_meta_tree(m: PageMetaView) -> Tree {
    let t = Tree::bare("page_meta"@).with_entry(
        float_prop("width_pts"@, m.width_pts),
    ).with_entry(float_prop("height_pts"@, m.height_pts)).with_entry(
        int_prop("rotation_deg"@, m.rotation_deg as i128),
    );
    match m.dpi {
        Some(n) => t.with_entry(int_prop("dpi"@, n as i128)),
        None => t,
    }
}

pub open spec fn block_tree(b: StructuredBlockView) -> Tree {
    let t = Tree::bare("block"@).with_entry(str_prop("kind"@, b.kind)).with_entry(
        float_prop("x"@, b.bbox.x),
    ).with_entry(float_prop("y"@, b.bbox.y)).with_entry(float_prop("w"@, b.bbox.w)).with_entry(
        float_prop("h"@, b.bbox.h),
    );
    let t = match b.confidence {
        Some(c) => t.with_entry(float_prop("confidence"@, c)),
        None => t,
    };
    match b.text {
        Some(s) => t.with_children(seq![text_node("text"@, s)]),
        None => t,
    }
}

pub open spec fn structured_tree(p: StructuredPageView) -> Tree {
    let meta = match p.page_meta {
        Some(m) => seq![page_meta_tree(m)],
        None => Seq::empty(),
    };
    Tree::bare("structured"@).with_children(
        meta + p.blocks.map_values(|b: StructuredBlockView| block_tree(b)),
    )
}

pub open spec fn content_tree(c: ContentView) -> Tree {
    match c {
        ContentView::Markdown(s) => text_node("markdown"@, s),
        ContentView::Structured(p) => structured_tree(p),
        ContentView::Error(e) => Tree::bare("error"@).with_entry(
            str_prop("kind"@, e.kind),
        ).with_entry(str_prop("message"@, e.message)),
    }
}

pub open spec fn page_tree(p: PageExtractionView) -> Tree {
    let rest = match p.metrics {
        Some(m) => seq![metrics_tree(m)],
        None => Seq::empty(),
    };
    Tree::bare("page"@).with_entry(int_prop("page"@, p.page as i128)).with_entry(
        str_prop("page_uuid"@, uuid_text(p.page_uuid.0)),
    ).with_entry(str_prop("extraction_uuid"@, uuid_text(p.extraction_uuid.0))).with_children(
        seq![content_tree(p.content)] + rest,
    )
}

pub open spec fn page_ref_tree(r: PageRefView) -> Tree {
    Tree::bare("page_ref"@).with_entry(int_prop("page"@, r.page as i128)).with_entry(
        str_prop("model"@, r.model),
    ).with_entry(str_prop("page_uuid"@, uuid_text(r.page_uuid.0))).with_entry(
        str_prop("extraction_uuid"@, uuid_text(r.extraction_uuid.0)),
    )
}

pub open spec fn toc_entry_tree(e: TocEntryView) -> Tree {
    let t = Tree::bare("entry"@).with_entry(str_prop("id"@, uuid_text(e.id.0))).with_entry(
        str_prop("title"@, e.title),
    ).with_entry(int_prop("level"@, e.level as i128));
    let t = match e.parent {
        Some(parent) => t.with_entry(str_prop("parent"@, uuid_text(parent.0))),
        None => t,
    };
    t.with_entry(str_prop("built_by"@, uuid_text(e.built_by.0))).with_children(
        e.page_refs.map_values(|r: PageRefView| page_ref_tree(r)),
    )
}

/// How a parameter value is written: plain values as KDL values, arrays and
/// objects as JSON text under the type `json`.
pub open spec fn param_entry(v: Json) -> Entry {
    match v {
        Json::Bool(b) => arg(Scalar::Bool(b)),
        Json::Number(Num::Pos(u)) => arg(Scalar::Int(u as i128)),
        Json::Number(Num::Neg(i)) => arg(Scalar::Int(i as i128)),
        Json::Number(Num::Float(t)) => arg(Scalar::Float(t)),
        Json::Str(s) => arg(Scalar::Str(s)),
        Json::Null => arg(Scalar::Null),
        _ => Entry { name: None, ty: Some("json"@), value: Scalar::Str(json_text(v)) },
    }
}

pub open spec fn param_tree(p: (Seq<char>, Json)) -> Tree {
    Tree::bare(p.0).with_entry(param_entry(p.1))
}

pub open spec fn extraction_tree(e: ExtractionView) -> Tree {
    let params = if e.params.len() == 0 {
        Seq::empty()
    } else {
        seq![
            Tree::bare("params"@).with_children(
                e.params.map_values(|p: (Seq<char>, Json)| param_tree(p)),
            ),
        ]
    };
    Tree::bare("extraction"@).with_entry(str_prop("uuid"@, uuid_text(e.uuid.0))).with_entry(
        str_prop("model"@, e.model),
    ).with_entry(
        str_prop("created_at"@, rfc3339_text(e.created_at.0, e.created_at.1)),
    ).with_children(seq![text_node("prompt"@, e.prompt)] + params)
}

/// The tree of the whole document.
pub open spec fn doc_tree(d: DocView) -> Tree {
    Tree::bare("doc"@).with_entry(
        int_prop("schema_version"@, d.schema_version as i128),
    ).with_entry(str_prop("content_hash"@, d.content_hash)).with_children(
        seq![
            Tree::bare("extractions"@).with_children(
                d.extractions.map_values(|e: ExtractionView| extraction_tree(e)),
            ),
            Tree::bare("extracted_pages"@).with_children(
                d.extracted_pages.map_values(|p: PageExtractionView| page_tree(p)),
            ),
            Tree::bare("toc"@).with_children(d.toc.map_values(|e: TocEntryView| toc_entry_tree(e))),
        ],
    )
}

// ---------------------------------------------------------------------------
// What reads back
// ---------------------------------------------------------------------------

/// Does the text of the identity read back as the identity?
pub open spec fn id_rereads(id: u128) -> bool {
    reads_as_id(uuid_text(id), id)
}

/// Is this an instant whose year is written with four digits?
pub open spec fn in_four_digit_years(at: (i64, u32)) -> bool {
    YEAR_ZERO <= at.0 <= YEAR_9999_END
}

/// Is the text of the instant made of digits and marks, and does it read back?
pub open spec fn time_rereads(at: (i64, u32)) -> bool {
    &&& is_stamp_text(rfc3339_text(at.0, at.1))
    &&& in_four_digit_years(at) ==> reads_as_instant(
        rfc3339_text(at.0, at.1),
        at.0,
        at.1,
    )
}

/// Is the value written as JSON text?
pub open spec fn is_compound(v: Json) -> bool {
    v is Array || v is Object
}

/// Does a value that is written as JSON text read back, and can its text be
/// printed?
pub open spec fn param_rereads(v: Json) -> bool {
    &&& is_compound(v) && rereads(v, MAX_DEPTH as nat) ==> decodes_to(json_text(v), v)
    &&& is_compound(v) && texts_printable(v) ==> printable(json_text(v))
}

pub open spec fn page_ref_rereads(r: PageRefView) -> bool {
    id_rereads(r.page_uuid.0) && id_rereads(r.extraction_uuid.0)
}

pub open spec fn toc_entry_rereads(e: TocEntryView) -> bool {
    &&& id_rereads(e.id.0)
    &&& (e.parent matches Some(parent) ==> id_rereads(parent.0))
    &&& id_rereads(e.built_by.0)
    &&& forall|i: int|
        0 <= i < e.page_refs.len() ==> page_ref_rereads(#[trigger] e.page_refs[i])
}

pub open spec fn page_rereads(p: PageExtractionView) -> bool {
    id_rereads(p.page_uuid.0) && id_rereads(p.extraction_uuid.0)
}

pub open spec fn extraction_rereads(e: ExtractionView) -> bool {
    &&& id_rereads(e.uuid.0)
    &&& time_rereads(e.created_at)
    &&& forall|i: int| 0 <= i < e.params.len() ==> param_rereads((#[trigger] e.params[i]).1)
    &&& keys_ordered(e.params)
}

pub open spec fn doc_rereads(d: DocView) -> bool {
    &&& forall|i: int|
        0 <= i < d.extractions.len() ==> extraction_rereads(#[trigger] d.extractions[i])
    &&& forall|i: int|
        0 <= i < d.extracted_pages.len() ==> page_rereads(#[trigger] d.extracted_pages[i])
    &&& forall|i: int| 0 <= i < d.toc.len() ==> toc_entry_rereads(#[trigger] d.toc[i])
}

// ---------------------------------------------------------------------------
// What trees are read as
// ---------------------------------------------------------------------------

pub open spec fn wrong_kind(field: Seq<char>, expected: Seq<char>, v: Scalar) -> KdlFault {
    KdlFault::InvalidValue { field, message: expected + scalar_debug(v) }
}

pub open spec fn field_of(node: Seq<char>, prop: Seq<char>) -> Seq<char> {
    node + "."@ + prop
}

/// A required text property.
pub open spec fn read_string(t: Tree, node: Seq<char>, prop: Seq<char>) -> Result<
    Seq<char>,
    KdlFault,
> {
    match prop_in(t.entries, prop) {
        Some(Scalar::Str(s)) => Ok(s),
        Some(v) => Err(wrong_kind(field_of(node, prop), "expected string, got "@, v)),
        None => Err(KdlFault::MissingProp { node, prop }),
    }
}

/// A required whole-number property.
pub open spec fn read_int(t: Tree, node: Seq<char>, prop: Seq<char>) -> Result<i128, KdlFault> {
    match prop_in(t.entries, prop) {
        Some(Scalar::Int(i)) => Ok(i),
        Some(v) => Err(wrong_kind(field_of(node, prop), "expected integer, got "@, v)),
        None => Err(KdlFault::MissingProp { node, prop }),
    }
}

/// A whole number as a fractional one.
pub open spec fn whole_real(i: i128) -> Seq<char> {
    double_text(signed_decimal(i as int))->0
}

/// A required number property, fractional or whole.
pub open spec fn read_float(t: Tree, node: Seq<char>, prop: Seq<char>) -> Result<
    Seq<char>,
    KdlFault,
> {
    match prop_in(t.entries, prop) {
        Some(Scalar::Float(s)) => Ok(s),
        Some(Scalar::Int(i)) => Ok(whole_real(i)),
        Some(v) => Err(wrong_kind(field_of(node, prop), "expected number, got "@, v)),
        None => Err(KdlFault::MissingProp { node, prop }),
    }
}

pub open spec fn read_optional_int(t: Tree, prop: Seq<char>) -> Result<Option<i128>, KdlFault> {
    match prop_in(t.entries, prop) {
        Some(Scalar::Int(i)) => Ok(Some(i)),
        Some(v) => Err(wrong_kind(prop, "expected integer, got "@, v)),
        None => Ok(None),
    }
}

pub open spec fn read_optional_float(t: Tree, prop: Seq<char>) -> Result<
    Option<Seq<char>>,
    KdlFault,
> {
    match prop_in(t.entries, prop) {
        Some(Scalar::Float(s)) => Ok(Some(s)),
        Some(Scalar::Int(i)) => Ok(Some(whole_real(i))),
        Some(v) => Err(wrong_kind(prop, "expected number, got "@, v)),
        None => Ok(None),
    }
}

pub open spec fn read_optional_string(t: Tree, prop: Seq<char>) -> Result<
    Option<Seq<char>>,
    KdlFault,
> {
    match prop_in(t.entries, prop) {
        Some(Scalar::Str(s)) => Ok(Some(s)),
        Some(v) => Err(wrong_kind(prop, "expected string, got "@, v)),
        None => Ok(None),
    }
}

/// The identity that a text names.
pub open spec fn id_in(text: Seq<char>) -> Result<u128, KdlFault> {
    match uuid_parsed(text) {
        Ok(id) => Ok(id),
        Err(source) => Err(KdlFault::InvalidUuid { value: text, source }),
    }
}

pub open spec fn read_id(t: Tree, node: Seq<char>, prop: Seq<char>) -> Result<u128, KdlFault> {
    match read_string(t, node, prop) {
        Ok(s) => id_in(s),
        Err(e) => Err(e),
    }
}

pub open spec fn read_time(t: Tree, node: Seq<char>, prop: Seq<char>) -> Result<
    (i64, u32),
    KdlFault,
> {
    match read_string(t, node, prop) {
        Ok(s) => match rfc3339_parsed(s) {
            Ok(at) => Ok(at),
            Err(source) => Err(KdlFault::InvalidTimestamp { value: s, source }),
        },
        Err(e) => Err(e),
    }
}

/// The first entry without a name.
pub open spec fn first_arg(entries: Seq<Entry>) -> Option<Entry>
    decreases entries.len(),
{
    if entries.len() == 0 {
        None
    } else if entries[0].name is None {
        Some(entries[0])
    } else {
        first_arg(entries.drop_first())
    }
}

/// The first argument, which has to be a text.
pub open spec fn read_text_arg(t: Tree, node: Seq<char>) -> Result<Seq<char>, KdlFault> {
    match first_arg(t.entries) {
        None => Err(KdlFault::MissingArg(node)),
        Some(e) => match e.value {
            Scalar::Str(s) => Ok(s),
            v => Err(wrong_kind(node, "expected string, got "@, v)),
        },
    }
}

/// Walk through `nodes` from the front, with `step` taking the state from node
/// to node until it fails.
pub open spec fn walk<S>(
    nodes: Seq<Tree>,
    state: S,
    step: spec_fn(S, Tree) -> Result<S, KdlFault>,
) -> Result<S, KdlFault>
    decreases nodes.len(),
{
    if nodes.len() == 0 {
        Ok(state)
    } else {
        match step(state, nodes[0]) {
            Ok(next) => walk(nodes.drop_first(), next, step),
            Err(e) => Err(e),
        }
    }
}

/// The children of a node, none where it has no block of them.
pub open spec fn below(t: Tree) -> Seq<Tree> {
    match t.children {
        Some(nodes) => nodes,
        None => Seq::empty(),
    }
}

/// Collects what `read` makes of the nodes called `name`; other nodes are passed
/// over.
pub open spec fn collecting<T>(
    name: Seq<char>,
    read: spec_fn(Tree) -> Result<T, KdlFault>,
) -> spec_fn(Seq<T>, Tree) -> Result<Seq<T>, KdlFault> {
    |done: Seq<T>, t: Tree|
        if t.name == name {
            match read(t) {
                Ok(v) => Ok(done.push(v)),
                Err(e) => Err(e),
            }
        } else {
            Ok(done)
        }
}

pub open spec fn narrow_u32(o: Option<i128>) -> Option<u32> {
    match o {
        Some(i) => Some(i as u32),
        None => None,
    }
}

pub open spec fn narrow_u16(o: Option<i128>) -> Option<u16> {
    match o {
        Some(i) => Some(i as u16),
        None => None,
    }
}

pub open spec fn metrics_of(t: Tree) -> Result<PageMetricsView, KdlFault> {
    match read_float(t, "metrics"@, "elapsed_secs"@) {
        Err(e) => Err(e),
        Ok(elapsed_secs) => match read_optional_int(t, "input_tokens"@) {
            Err(e) => Err(e),
            Ok(input) => match read_optional_int(t, "output_tokens"@) {
                Err(e) => Err(e),
                Ok(output) => Ok(
                    PageMetricsView {
                        elapsed_secs,
                        input_tokens: narrow_u32(input),
                        output_tokens: narrow_u32(output),
                    },
                ),
            },
        },
    }
}

pub open spec fn page_meta_of(t: Tree) -> Result<PageMetaView, KdlFault> {
    match read_float(t, "page_meta"@, "width_pts"@) {
        Err(e) => Err(e),
        Ok(width_pts) => match read_float(t, "page_meta"@, "height_pts"@) {
            Err(e) => Err(e),
            Ok(height_pts) => match read_int(t, "page_meta"@, "rotation_deg"@) {
                Err(e) => Err(e),
                Ok(rotation) => match read_optional_int(t, "dpi"@) {
                    Err(e) => Err(e),
                    Ok(dpi) => Ok(
                        PageMetaView {
                            width_pts,
                            height_pts,
                            rotation_deg: rotation as u16,
                            dpi: narrow_u16(dpi),
                        },
                    ),
                },
            },
        },
    }
}

pub open spec fn bbox_of(t: Tree) -> Result<BBoxView, KdlFault> {
    match read_float(t, "block"@, "x"@) {
        Err(e) => Err(e),
        Ok(x) => match read_float(t, "block"@, "y"@) {
            Err(e) => Err(e),
            Ok(y) => match read_float(t, "block"@, "w"@) {
                Err(e) => Err(e),
                Ok(w) => match read_float(t, "block"@, "h"@) {
                    Err(e) => Err(e),
                    Ok(h) => Ok(BBoxView { x, y, w, h }),
                },
            },
        },
    }
}

/// Keeps the text of the last `text` node.
pub open spec fn text_step() -> spec_fn(Option<Seq<char>>, Tree) -> Result<
    Option<Seq<char>>,
    KdlFault,
> {
    |found: Option<Seq<char>>, t: Tree|
        if t.name == "text"@ {
            match read_text_arg(t, "text"@) {
                Ok(s) => Ok(Some(s)),
                Err(e) => Err(e),
            }
        } else {
            Ok(found)
        }
}

pub open spec fn block_of(t: Tree) -> Result<StructuredBlockView, KdlFault> {
    match read_string(t, "block"@, "kind"@) {
        Err(e) => Err(e),
        Ok(kind) => match bbox_of(t) {
            Err(e) => Err(e),
            Ok(bbox) => match read_optional_float(t, "confidence"@) {
                Err(e) => Err(e),
                Ok(confidence) => match walk(below(t), None, text_step()) {
                    Err(e) => Err(e),
                    Ok(text) => Ok(StructuredBlockView { kind, bbox, text, confidence }),
                },
            },
        },
    }
}

/// Appends each `block`; keeps the last `page_meta`.
pub open spec fn layout_step() -> spec_fn(StructuredPageView, Tree) -> Result<
    StructuredPageView,
    KdlFault,
> {
    |p: StructuredPageView, t: Tree|
        if t.name == "page_meta"@ {
            match page_meta_of(t) {
                Ok(m) => Ok(StructuredPageView { page_meta: Some(m), ..p }),
                Err(e) => Err(e),
            }
        } else if t.name == "block"@ {
            match block_of(t) {
                Ok(b) => Ok(StructuredPageView { blocks: p.blocks.push(b), ..p }),
                Err(e) => Err(e),
            }
        } else {
            Ok(p)
        }
}

pub open spec fn structured_of(t: Tree) -> Result<StructuredPageView, KdlFault> {
    walk(
        below(t),
        StructuredPageView { blocks: Seq::empty(), page_meta: None },
        layout_step(),
    )
}

pub open spec fn error_of(t: Tree) -> Result<ErrorContentView, KdlFault> {
    match read_string(t, "error"@, "kind"@) {
        Err(e) => Err(e),
        Ok(kind) => match read_string(t, "error"@, "message"@) {
            Err(e) => Err(e),
            Ok(message) => Ok(ErrorContentView { kind, message }),
        },
    }
}

/// What has been read of a page so far.
pub struct PageParts {
    pub content: Option<ContentView>,
    pub metrics: Option<PageMetricsView>,
}

/// Keeps the last content and the last metrics; any other node is a fault.
pub open spec fn page_step() -> spec_fn(PageParts, Tree) -> Result<PageParts, KdlFault> {
    |p: PageParts, t: Tree|
        if t.name == "markdown"@ {
            match read_text_arg(t, "markdown"@) {
                Ok(s) => Ok(PageParts { content: Some(ContentView::Markdown(s)), ..p }),
                Err(e) => Err(e),
            }
        } else if t.name == "structured"@ {
            match structured_of(t) {
                Ok(s) => Ok(PageParts { content: Some(ContentView::Structured(s)), ..p }),
                Err(e) => Err(e),
            }
        } else if t.name == "error"@ {
            match error_of(t) {
                Ok(s) => Ok(PageParts { content: Some(ContentView::Error(s)), ..p }),
                Err(e) => Err(e),
            }
        } else if t.name == "metrics"@ {
            match metrics_of(t) {
                Ok(m) => Ok(PageParts { metrics: Some(m), ..p }),
                Err(e) => Err(e),
            }
        } else {
            Err(KdlFault::UnknownContent(t.name))
        }
}

pub open spec fn page_of(t: Tree) -> Result<PageExtractionView, KdlFault> {
    match read_int(t, "page"@, "page"@) {
        Err(e) => Err(e),
        Ok(page) => match read_id(t, "page"@, "page_uuid"@) {
            Err(e) => Err(e),
            Ok(page_uuid) => match read_id(t, "page"@, "extraction_uuid"@) {
                Err(e) => Err(e),
                Ok(extraction_uuid) => match walk(
                    below(t),
                    PageParts { content: None, metrics: None },
                    page_step(),
                ) {
                    Err(e) => Err(e),
                    Ok(parts) => match parts.content {
                        None => Err(KdlFault::MissingNode("page content"@)),
                        Some(content) => Ok(
                            PageExtractionView {
                                page_uuid: PageId(page_uuid),
                                page: page as u32,
                                extraction_uuid: ExtractionId(extraction_uuid),
                                content,
                                metrics: parts.metrics,
                            },
                        ),
                    },
                },
            },
        },
    }
}

pub open spec fn page_ref_of(t: Tree) -> Result<PageRefView, KdlFault> {
    match read_int(t, "page_ref"@, "page"@) {
        Err(e) => Err(e),
        Ok(page) => match read_string(t, "page_ref"@, "model"@) {
            Err(e) => Err(e),
            Ok(model) => match read_id(t, "page_ref"@, "page_uuid"@) {
                Err(e) => Err(e),
                Ok(page_uuid) => match read_id(t, "page_ref"@, "extraction_uuid"@) {
                    Err(e) => Err(e),
                    Ok(extraction_uuid) => Ok(
                        PageRefView {
                            page: page as u32,
                            model,
                            page_uuid: PageId(page_uuid),
                            extraction_uuid: ExtractionId(extraction_uuid),
                        },
                    ),
                },
            },
        },
    }
}

pub open spec fn read_page_ref() -> spec_fn(Tree) -> Result<PageRefView, KdlFault> {
    |t: Tree| page_ref_of(t)
}

/// The entry that a text names as a parent.
pub open spec fn parent_in(s: Option<Seq<char>>) -> Result<Option<TocEntryId>, KdlFault> {
    match s {
        None => Ok(None),
        Some(s) => match id_in(s) {
            Ok(id) => Ok(Some(TocEntryId(id))),
            Err(e) => Err(e),
        },
    }
}

pub open spec fn read_parent(t: Tree) -> Result<Option<TocEntryId>, KdlFault> {
    match read_optional_string(t, "parent"@) {
        Err(e) => Err(e),
        Ok(s) => parent_in(s),
    }
}

pub open spec fn toc_entry_of(t: Tree) -> Result<TocEntryView, KdlFault> {
    match read_id(t, "entry"@, "id"@) {
        Err(e) => Err(e),
        Ok(id) => match read_string(t, "entry"@, "title"@) {
            Err(e) => Err(e),
            Ok(title) => match read_int(t, "entry"@, "level"@) {
                Err(e) => Err(e),
                Ok(level) => match read_parent(t) {
                    Err(e) => Err(e),
                    Ok(parent) => match read_id(t, "entry"@, "built_by"@) {
                        Err(e) => Err(e),
                        Ok(built_by) => match walk(
                            below(t),
                            Seq::empty(),
                            collecting("page_ref"@, read_page_ref()),
                        ) {
                            Err(e) => Err(e),
                            Ok(page_refs) => Ok(
                                TocEntryView {
                                    id: TocEntryId(id),
                                    title,
                                    level: level as u8,
                                    parent,
                                    page_refs,
                                    built_by: ExtractionId(built_by),
                                },
                            ),
                        },
                    },
                },
            },
        },
    }
}

/// The JSON number for a whole number: the number itself, where JSON has it.
pub open spec fn int_json(i: i128) -> Json {
    if 0 <= i <= u64::MAX {
        Json::Number(Num::Pos(i as u64))
    } else {
        whole_json(i as i64)
    }
}

/// The value of a parameter node: its first entry.
pub open spec fn param_of(t: Tree) -> Result<Json, KdlFault> {
    if t.entries.len() == 0 {
        Err(KdlFault::MissingArg("params child"@))
    } else {
        let e = t.entries[0];
        match e.value {
            Scalar::Str(s) => if e.ty == Some("json"@) {
                match json_decoded(s) {
                    Ok(v) => Ok(v),
                    Err(source) => Err(KdlFault::InvalidJsonParam { field: t.name, source }),
                }
            } else {
                Ok(Json::Str(s))
            },
            Scalar::Bool(b) => Ok(Json::Bool(b)),
            Scalar::Int(i) => Ok(int_json(i)),
            Scalar::Float(s) => Ok(real_json(s)),
            Scalar::Null => Ok(Json::Null),
        }
    }
}

/// Sets the parameter of each node.
pub open spec fn param_step() -> spec_fn(Seq<(Seq<char>, Json)>, Tree) -> Result<
    Seq<(Seq<char>, Json)>,
    KdlFault,
> {
    |params: Seq<(Seq<char>, Json)>, t: Tree|
        match param_of(t) {
            Ok(v) => Ok(with_param(params, t.name, v)),
            Err(e) => Err(e),
        }
}

/// What has been read of a run so far.
pub struct RunParts {
    pub prompt: Seq<char>,
    pub params: Seq<(Seq<char>, Json)>,
}

/// Keeps the last prompt; sets the parameters of every `params` node.
pub open spec fn run_step() -> spec_fn(RunParts, Tree) -> Result<RunParts, KdlFault> {
    |p: RunParts, t: Tree|
        if t.name == "prompt"@ {
            match read_text_arg(t, "prompt"@) {
                Ok(prompt) => Ok(RunParts { prompt, ..p }),
                Err(e) => Err(e),
            }
        } else if t.name == "params"@ {
            match walk(below(t), p.params, param_step()) {
                Ok(params) => Ok(RunParts { params, ..p }),
                Err(e) => Err(e),
            }
        } else {
            Ok(p)
        }
}

pub open spec fn extraction_of(t: Tree) -> Result<ExtractionView, KdlFault> {
    match read_id(t, "extraction"@, "uuid"@) {
        Err(e) => Err(e),
        Ok(uuid) => match read_string(t, "extraction"@, "model"@) {
            Err(e) => Err(e),
            Ok(model) => match read_time(t, "extraction"@, "created_at"@) {
                Err(e) => Err(e),
                Ok(created_at) => match walk(
                    below(t),
                    RunParts { prompt: Seq::empty(), params: Seq::empty() },
                    run_step(),
                ) {
                    Err(e) => Err(e),
                    Ok(parts) => Ok(
                        ExtractionView {
                            uuid: ExtractionId(uuid),
                            model,
                            prompt: parts.prompt,
                            params: parts.params,
                            created_at,
                        },
                    ),
                },
            },
        },
    }
}

pub open spec fn read_extraction() -> spec_fn(Tree) -> Result<ExtractionView, KdlFault> {
    |t: Tree| extraction_of(t)
}

pub open spec fn read_page() -> spec_fn(Tree) -> Result<PageExtractionView, KdlFault> {
    |t: Tree| page_of(t)
}

pub open spec fn read_toc_entry() -> spec_fn(Tree) -> Result<TocEntryView, KdlFault> {
    |t: Tree| toc_entry_of(t)
}

/// The list under the first child called `list`, of what `read` makes of its
/// nodes called `item`. A list that is not there is empty.
pub open spec fn list_of<T>(
    t: Tree,
    list: Seq<char>,
    item: Seq<char>,
    read: spec_fn(Tree) -> Result<T, KdlFault>,
) -> Result<Seq<T>, KdlFault> {
    match named(below(t), list) {
        None => Ok(Seq::empty()),
        Some(l) => walk(below(l), Seq::empty(), collecting(item, read)),
    }
}

pub open spec fn doc_of(t: Tree) -> Result<DocView, KdlFault> {
    match read_int(t, "doc"@, "schema_version"@) {
        Err(e) => Err(e),
        Ok(schema_version) => match read_string(t, "doc"@, "content_hash"@) {
            Err(e) => Err(e),
            Ok(content_hash) => match list_of(
                t,
                "extractions"@,
                "extraction"@,
                read_extraction(),
            ) {
                Err(e) => Err(e),
                Ok(extractions) => match list_of(t, "extracted_pages"@, "page"@, read_page()) {
                    Err(e) => Err(e),
                    Ok(extracted_pages) => match list_of(t, "toc"@, "entry"@, read_toc_entry()) {
                        Err(e) => Err(e),
                        Ok(toc) => Ok(
                            DocView {
                                schema_version: schema_version as u32,
                                content_hash,
                                extractions,
                                extracted_pages,
                                toc,
                            },
                        ),
                    },
                },
            },
        },
    }
}

/// The document under the first node called `doc`.
pub open spec fn doc_in(nodes: Seq<Tree>) -> Result<DocView, KdlFault> {
    match named(nodes, "doc"@) {
        None => Err(KdlFault::MissingNode("doc"@)),
        Some(t) => doc_of(t),
    }
}

/// The document that a text holds.
pub open spec fn doc_in_text(text: Seq<char>) -> Result<DocView, KdlFault> {
    match kdl_parsed(text) {
        Ok(nodes) => doc_in(nodes),
        Err(e) => Err(KdlFault::Parse(e)),
    }
}

} // verus!
