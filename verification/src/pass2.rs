//! Reading the layout of a page from a model's answer.
//!
//! The model answers with JSON, often inside a Markdown code fence: a list of
//! elements with a box, a category and a text each, or an object that holds such
//! a list. Boxes are given by two corners on a grid of 1000 by 1000 over the
//! page, whatever its size.

use crate::ir::{opt_view, views};
use crate::json::{Json, Shape, json_decoded, json_tree, member, num_real, trees};
use crate::number::Real;
use crate::text::{
    chars_of, debug_text, find_char, first_of, first_of_is_first, has_prefix, last_of, rfind, slice,
    starts_with, str_debug, string_of, trim, trimmed,
};
use vstd::prelude::*;

verus! {

/// Why an answer holds no layout.
#[derive(Debug, Clone, PartialEq)]
pub enum LayoutParseError {
    /// The text is not JSON. `head` is its beginning.
    JsonDecode { source: String, head: String },
    /// The JSON is neither a list nor an object with a list of elements.
    UnexpectedShape { kind: &'static str },
}

pub enum LayoutFault {
    JsonDecode { source: Seq<char>, head: Seq<char> },
    UnexpectedShape { kind: Seq<char> },
}

impl View for LayoutParseError {
    type V = LayoutFault;

    open spec fn view(&self) -> LayoutFault {
        match self {
            LayoutParseError::JsonDecode { source, head } => LayoutFault::JsonDecode {
                source: source@,
                head: head@,
            },
            LayoutParseError::UnexpectedShape { kind } => LayoutFault::UnexpectedShape {
                kind: kind@,
            },
        }
    }
}

/// The message for humans.
pub open spec fn layout_message(f: LayoutFault) -> Seq<char> {
    match f {
        LayoutFault::JsonDecode { source, head } => "layout json decode failed: "@ + source
            + " (head: "@ + str_debug(head) + ")"@,
        LayoutFault::UnexpectedShape { kind } => "unexpected layout shape (top level was "@ + kind
            + ", no element list found)"@,
    }
}

impl LayoutParseError {
    /// The message for humans.
    pub fn message(&self) -> (r: String)
        ensures
            r@ == layout_message(self@),
    {
        match self {
            LayoutParseError::JsonDecode { source, head } => String::from_str(
                "layout json decode failed: ",
            ).concat(source.as_str()).concat(" (head: ").concat(
                debug_text(head.as_str()).as_str(),
            ).concat(")"),
            LayoutParseError::UnexpectedShape { kind } => String::from_str(
                "unexpected layout shape (top level was ",
            ).concat(kind).concat(", no element list found)"),
        }
    }
}

/// One element of a layout, with its box as two corners on the model's grid.
#[derive(Debug, Clone, PartialEq)]
pub struct LayoutElement {
    pub kind: String,
    pub x1: Real,
    pub y1: Real,
    pub x2: Real,
    pub y2: Real,
    pub text: Option<String>,
    pub confidence: Option<Real>,
}

pub struct LayoutElementView {
    pub kind: Seq<char>,
    pub x1: Seq<char>,
    pub y1: Seq<char>,
    pub x2: Seq<char>,
    pub y2: Seq<char>,
    pub text: Option<Seq<char>>,
    pub confidence: Option<Seq<char>>,
}

impl View for LayoutElement {
    type V = LayoutElementView;

    open spec fn view(&self) -> LayoutElementView {
        LayoutElementView {
            kind: self.kind@,
            x1: self.x1@,
            y1: self.y1@,
            x2: self.x2@,
            y2: self.y2@,
            text: opt_view(self.text),
            confidence: opt_view(self.confidence),
        }
    }
}

// ---------------------------------------------------------------------------
// Code fences
// ---------------------------------------------------------------------------

/// The text inside a Markdown code fence, without the opening line and without
/// the last closing fence; the text itself where there is no fence. White space
/// around it goes.
pub open spec fn unfenced(raw: Seq<char>) -> Seq<char> {
    let t = trim(raw);
    if !starts_with(t, "```"@) {
        t
    } else {
        match first_of(t, '\n') {
            None => t,
            Some(nl) => {
                let inner = t.skip(nl + 1);
                match last_of(inner, "```"@) {
                    Some(end) => trim(inner.take(end)),
                    None => trim(inner),
                }
            },
        }
    }
}

/// Strip a surrounding Markdown code fence.
pub fn strip_fences(raw: &str) -> (r: String)
    ensures
        r@ == unfenced(raw@),
{
    let t = trimmed(&chars_of(raw));
    let fence = chars_of("```");
    if !has_prefix(&t, &fence) {
        return string_of(&t);
    }
    match find_char(&t, '\n') {
        None => string_of(&t),
        Some(nl) => {
            proof {
                first_of_is_first(t@, '\n');
            }
            let inner = slice(&t, nl + 1, t.len());
            assert(inner@ =~= t@.skip(nl + 1));
            match rfind(&inner, &fence) {
                Some(end) => {
                    proof {
                        crate::text::last_of_is_inside(inner@, fence@);
                    }
                    let body = slice(&inner, 0, end);
                    assert(body@ =~= inner@.take(end as int));
                    string_of(&trimmed(&body))
                },
                None => string_of(&trimmed(&inner)),
            }
        },
    }
}

// ---------------------------------------------------------------------------
// Elements
// ---------------------------------------------------------------------------

/// The list under `key`, if the value is an object with a list there.
pub open spec fn list_under(v: Json, key: Seq<char>) -> Option<Seq<Json>> {
    match v {
        Json::Object(members) => match member(members, key) {
            Some(Json::Array(items)) => Some(items),
            _ => None,
        },
        _ => None,
    }
}

/// What a value is called where it is no layout.
pub open spec fn shape_name(v: Json) -> Seq<char> {
    match v {
        Json::Null => "null"@,
        Json::Bool(_) => "bool"@,
        Json::Number(_) => "number"@,
        Json::Str(_) => "string"@,
        Json::Array(_) => "other"@,
        Json::Object(_) => "object"@,
    }
}

/// The list of elements: the value itself, or the first list under one of the
/// known keys.
pub open spec fn elements_in(v: Json) -> Result<Seq<Json>, LayoutFault> {
    match v {
        Json::Array(items) => Ok(items),
        _ => match list_under(v, "layout_elements"@) {
            Some(items) => Ok(items),
            None => match list_under(v, "elements"@) {
                Some(items) => Ok(items),
                None => match list_under(v, "regions"@) {
                    Some(items) => Ok(items),
                    None => Err(LayoutFault::UnexpectedShape { kind: shape_name(v) }),
                },
            },
        },
    }
}

fn array_under<'a>(v: &'a serde_json::Value, key: &str) -> (r: Option<&'a Vec<serde_json::Value>>)
    ensures
        match r {
            Some(items) => list_under(json_tree(*v), key@) == Some(trees(items@)),
            None => list_under(json_tree(*v), key@) is None,
        },
{
    match crate::json::get(v, key) {
        None => None,
        Some(found) => match crate::json::shape(found) {
            Shape::Array(items) => Some(items),
            _ => None,
        },
    }
}

fn normalize_elements(v: &serde_json::Value) -> (r: Result<
    &Vec<serde_json::Value>,
    LayoutParseError,
>)
    ensures
        match r {
            Ok(items) => elements_in(json_tree(*v)) == Ok::<Seq<Json>, LayoutFault>(trees(items@)),
            Err(e) => elements_in(json_tree(*v)) == Err::<Seq<Json>, LayoutFault>(e@),
        },
{
    let kind = match crate::json::shape(v) {
        Shape::Array(items) => return Ok(items),
        Shape::Object => "object",
        Shape::Null => "null",
        Shape::Bool(_) => "bool",
        Shape::Number => "number",
        Shape::Str(_) => "string",
    };
    if let Some(items) = array_under(v, "layout_elements") {
        return Ok(items);
    }
    if let Some(items) = array_under(v, "elements") {
        return Ok(items);
    }
    if let Some(items) = array_under(v, "regions") {
        return Ok(items);
    }
    Err(LayoutParseError::UnexpectedShape { kind })
}

/// The text under `key`.
pub open spec fn text_under(v: Json, key: Seq<char>) -> Option<Seq<char>> {
    match v {
        Json::Object(members) => match member(members, key) {
            Some(Json::Str(s)) => Some(s),
            _ => None,
        },
        _ => None,
    }
}

/// The number under `key`.
pub open spec fn number_under(v: Json, key: Seq<char>) -> Option<Seq<char>> {
    match v {
        Json::Object(members) => match member(members, key) {
            Some(Json::Number(n)) => num_real(n),
            _ => None,
        },
        _ => None,
    }
}

/// The number that a value is.
pub open spec fn number_in(v: Json) -> Option<Seq<char>> {
    match v {
        Json::Number(n) => num_real(n),
        _ => None,
    }
}

/// Is this a list of four numbers?
pub open spec fn is_box(items: Seq<Json>) -> bool {
    items.len() == 4 && items[0] is Number && items[1] is Number && items[2] is Number
        && items[3] is Number
}

/// The element that a value describes; nothing where it has no box of four
/// numbers. An element without a category is of unknown kind.
pub open spec fn element_in(v: Json) -> Option<LayoutElementView> {
    match list_under(v, "bbox"@) {
        None => None,
        Some(corners) => if !is_box(corners) {
            None
        } else {
            Some(
                LayoutElementView {
                    kind: match text_under(v, "category"@) {
                        Some(s) => s,
                        None => "unknown"@,
                    },
                    x1: number_in(corners[0])->0,
                    y1: number_in(corners[1])->0,
                    x2: number_in(corners[2])->0,
                    y2: number_in(corners[3])->0,
                    text: text_under(v, "text"@),
                    confidence: number_under(v, "confidence"@),
                },
            )
        },
    }
}

/// The elements that a list of values describes; values without a box are
/// passed over.
pub open spec fn elements_of(items: Seq<Json>) -> Seq<LayoutElementView>
    decreases items.len(),
{
    if items.len() == 0 {
        Seq::empty()
    } else {
        let rest = elements_of(items.drop_last());
        match element_in(items.last()) {
            Some(e) => rest.push(e),
            None => rest,
        }
    }
}

fn string_under(v: &serde_json::Value, key: &str) -> (r: Option<String>)
    ensures
        opt_view(r) == text_under(json_tree(*v), key@),
{
    match crate::json::get(v, key) {
        None => None,
        Some(found) => match crate::json::shape(found) {
            Shape::Str(s) => Some(String::from_str(s)),
            _ => None,
        },
    }
}

fn real_under(v: &serde_json::Value, key: &str) -> (r: Option<Real>)
    ensures
        opt_view(r) == number_under(json_tree(*v), key@),
{
    match crate::json::get(v, key) {
        None => None,
        Some(found) => crate::json::as_real(found),
    }
}

fn layout_element(v: &serde_json::Value) -> (r: Option<LayoutElement>)
    ensures
        opt_view(r) == element_in(json_tree(*v)),
{
    let corners = match array_under(v, "bbox") {
        Some(items) => items,
        None => return None,
    };
    if corners.len() != 4 {
        return None;
    }
    assert(trees(corners@)[0] == json_tree(corners@[0]) && trees(corners@)[1] == json_tree(
        corners@[1],
    ) && trees(corners@)[2] == json_tree(corners@[2]) && trees(corners@)[3] == json_tree(
        corners@[3],
    ));
    let x1 = match crate::json::as_real(&corners[0]) {
        Some(n) => n,
        None => return None,
    };
    let y1 = match crate::json::as_real(&corners[1]) {
        Some(n) => n,
        None => return None,
    };
    let x2 = match crate::json::as_real(&corners[2]) {
        Some(n) => n,
        None => return None,
    };
    let y2 = match crate::json::as_real(&corners[3]) {
        Some(n) => n,
        None => return None,
    };
    let kind = match string_under(v, "category") {
        Some(s) => s,
        None => String::from_str("unknown"),
    };
    let text = string_under(v, "text");
    let confidence = real_under(v, "confidence");
    Some(LayoutElement { kind, x1, y1, x2, y2, text, confidence })
}

/// What a layout reader returned, by the views.
pub open spec fn layout_outcome(r: Result<Vec<LayoutElement>, LayoutParseError>) -> Result<
    Seq<LayoutElementView>,
    LayoutFault,
> {
    match r {
        Ok(v) => Ok(views(v@)),
        Err(e) => Err(e@),
    }
}

/// The layout that a JSON value describes.
pub open spec fn layout_in(v: Json) -> Result<Seq<LayoutElementView>, LayoutFault> {
    match elements_in(v) {
        Ok(items) => Ok(elements_of(items)),
        Err(e) => Err(e),
    }
}

/// Read the layout that a JSON value describes.
pub fn layout_from_value(v: &serde_json::Value) -> (r: Result<
    Vec<LayoutElement>,
    LayoutParseError,
>)
    ensures
        layout_outcome(r) == layout_in(json_tree(*v)),
{
    let items = match normalize_elements(v) {
        Ok(items) => items,
        Err(e) => return Err(e),
    };
    let mut out: Vec<LayoutElement> = Vec::new();
    let ghost all = trees(items@);
    assert(views(out@) =~= elements_of(all.take(0)));
    for i in 0..items.len()
        invariant
            all == trees(items@),
            views(out@) == elements_of(all.take(i as int)),
    {
        let ghost upto = all.take(i + 1);
        assert(upto.drop_last() =~= all.take(i as int));
        assert(upto.last() == json_tree(items@[i as int]));
        let ghost before = views(out@);
        if let Some(e) = layout_element(&items[i]) {
            out.push(e);
            assert(views(out@) =~= before.push(e@));
        }
    }
    assert(all.take(all.len() as int) =~= all);
    Ok(out)
}

/// The number of characters of an undecodable text that an error quotes.
pub const HEAD_CHARS: usize = 120;

/// The beginning of a text.
pub open spec fn head_of(s: Seq<char>) -> Seq<char> {
    if s.len() <= HEAD_CHARS {
        s
    } else {
        s.take(HEAD_CHARS as int)
    }
}

/// The layout in a model's answer.
pub open spec fn layout_in_text(raw: Seq<char>) -> Result<Seq<LayoutElementView>, LayoutFault> {
    let cleaned = unfenced(raw);
    match json_decoded(cleaned) {
        Err(source) => Err(LayoutFault::JsonDecode { source, head: head_of(cleaned) }),
        Ok(v) => layout_in(v),
    }
}

/// Read the layout in a model's answer, with the boxes on the model's grid.
pub fn parse_layout_json(raw: &str) -> (r: Result<Vec<LayoutElement>, LayoutParseError>)
    ensures
        layout_outcome(r) == layout_in_text(raw@),
{
    let cleaned = strip_fences(raw);
    match crate::json::decode(cleaned.as_str()) {
        Ok(v) => layout_from_value(&v),
        Err(source) => {
            let chars = chars_of(cleaned.as_str());
            let end: usize = if chars.len() <= HEAD_CHARS {
                chars.len()
            } else {
                HEAD_CHARS
            };
            let head = string_of(&slice(&chars, 0, end));
            assert(head@ =~= head_of(cleaned@));
            Err(LayoutParseError::JsonDecode { source, head })
        },
    }
}

/// A text inside a code fence, behind an opening line with a language tag.
pub open spec fn fenced(tag: Seq<char>, body: Seq<char>) -> Seq<char> {
    "```"@ + tag + seq!['\n'] + body + "```"@
}

/// Stripping the fence gives back what was put inside it, whatever the language
/// tag, up to white space around it.
pub proof fn unfencing_undoes_fencing(tag: Seq<char>, body: Seq<char>)
    requires
        !tag.contains('\n'),
    ensures
        unfenced(fenced(tag, body)) == trim(body),
{
    reveal_strlit("```");
    let f = "```"@;
    let raw = fenced(tag, body);
    let n = raw.len() as int;
    assert(raw[0] == f[0] && raw[n - 1] == f[2]);
    assert(trim(raw) == raw);
    assert(raw.subrange(0, 3) =~= f);
    first_of_is_first(raw, '\n');
    let nl: int = 3 + tag.len() as int;
    assert(raw[nl] == '\n');
    assert(raw.contains(raw[nl]));
    assert forall|j: int| 0 <= j < nl implies raw[j] != '\n' by {
        if j >= 3 {
            assert(raw[j] == tag[j - 3]);
            assert(tag.contains(tag[j - 3]));
        }
    }
    assert(first_of(raw, '\n') == Some(nl));
    let inner = raw.skip(nl + 1);
    assert(inner =~= body + f);
    let m = inner.len() as int;
    assert(inner.subrange(m - 3, m) =~= f);
    assert(crate::text::occurs_at(inner, f, m - 3));
    reveal_with_fuel(crate::text::last_of_up_to, 5);
    assert(last_of(inner, f) == Some(m - 3));
    assert(inner.take(m - 3) =~= body);
}

} // verus!
