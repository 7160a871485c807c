//! KDL documents as trees.
//!
//! The `kdl` crate holds, prints and parses the documents. The contracts below
//! say, over the tree that a document stands for, what its methods do.

use crate::number::double_text;
use vstd::prelude::*;

verus! {

#[verifier::external_type_specification]
#[verifier::external_body]
pub struct ExKdlDocument(kdl::KdlDocument);

#[verifier::external_type_specification]
#[verifier::external_body]
pub struct ExKdlNode(kdl::KdlNode);

#[verifier::external_type_specification]
#[verifier::external_body]
pub struct ExKdlEntry(kdl::KdlEntry);

#[verifier::external_type_specification]
#[verifier::external_body]
pub struct ExKdlValue(kdl::KdlValue);

/// A KDL value. A fractional number is given by its shortest decimal text.
pub enum Scalar {
    Str(Seq<char>),
    Int(i128),
    Float(Seq<char>),
    Bool(bool),
    Null,
}

/// An argument, or a property where it has a name.
pub struct Entry {
    pub name: Option<Seq<char>>,
    pub ty: Option<Seq<char>>,
    pub value: Scalar,
}

/// A node with its entries and, if it has a block of them, its children.
pub struct Tree {
    pub name: Seq<char>,
    pub entries: Seq<Entry>,
    pub children: Option<Seq<Tree>>,
}

impl Tree {
    /// A node with nothing but a name.
    pub open spec fn bare(name: Seq<char>) -> Tree {
        Tree { name, entries: Seq::empty(), children: None }
    }

    pub open spec fn with_entry(self, e: Entry) -> Tree {
        Tree { entries: self.entries.push(e), ..self }
    }

    pub open spec fn with_children(self, children: Seq<Tree>) -> Tree {
        Tree { children: Some(children), ..self }
    }
}

// ---------------------------------------------------------------------------
// What the values of the crate hold
// ---------------------------------------------------------------------------

/// The value that a `kdl::KdlValue` holds.
pub uninterp spec fn kdl_scalar(v: kdl::KdlValue) -> Scalar;

/// The entry that a `kdl::KdlEntry` holds.
pub uninterp spec fn kdl_entry(e: kdl::KdlEntry) -> Entry;

/// The tree that a `kdl::KdlNode` holds.
pub uninterp spec fn kdl_node(n: kdl::KdlNode) -> Tree;

/// The nodes that a `kdl::KdlDocument` holds.
pub uninterp spec fn kdl_nodes(d: kdl::KdlDocument) -> Seq<Tree>;

/// Does the entry carry no layout of its own?
pub uninterp spec fn plain_entry(e: kdl::KdlEntry) -> bool;

/// Do the node and all below it carry no layout but that of a new node, and no
/// type annotation?
pub uninterp spec fn plain_node(n: kdl::KdlNode) -> bool;

/// Does the document, with all below it, carry no layout of its own?
pub uninterp spec fn plain_document(d: kdl::KdlDocument) -> bool;

/// What the `kdl` crate writes for nodes without a layout of their own.
pub uninterp spec fn kdl_text(nodes: Seq<Tree>) -> Seq<char>;

/// What `kdl::KdlDocument::parse_v2` makes of a text: the nodes, or the text of
/// the error.
pub uninterp spec fn kdl_parsed(text: Seq<char>) -> Result<Seq<Tree>, Seq<char>>;

/// What `Debug` writes for a `kdl::KdlValue`.
pub uninterp spec fn scalar_debug(v: Scalar) -> Seq<char>;

// ---------------------------------------------------------------------------
// Which trees survive printing and parsing
// ---------------------------------------------------------------------------

/// May `c` stand in a printed text? The printer escapes quotes, backslashes,
/// tabs, line feeds, carriage returns, form feeds and backspaces; other control,
/// direction and line break characters go out as they are, and the parser
/// rejects them.
pub open spec fn printable_char(c: char) -> bool {
    &&& !(c <= '\u{7}')
    &&& c != '\u{b}'
    &&& !('\u{e}' <= c <= '\u{1f}')
    &&& c != '\u{85}'
    &&& !('\u{200e}' <= c <= '\u{200f}')
    &&& !('\u{2028}' <= c <= '\u{202e}')
    &&& !('\u{2066}' <= c <= '\u{2069}')
    &&& c != '\u{feff}'
}

/// May `c` stand in a text that is printed without quotes?
pub open spec fn ident_char(c: char) -> bool {
    &&& printable_char(c)
    &&& !('\u{8}' <= c <= '\u{d}')
    &&& c != '\\' && c != '/' && c != '(' && c != ')' && c != '{' && c != '}'
    &&& c != '[' && c != ']' && c != ';' && c != '"' && c != '#' && c != '='
    &&& c != ' ' && c != '\u{a0}' && c != '\u{1680}'
    &&& !('\u{2000}' <= c <= '\u{200a}')
    &&& c != '\u{202f}' && c != '\u{205f}' && c != '\u{3000}'
}

/// Does `s` look like a number without a leading digit? The printer puts no
/// quotes around such a text, and the parser takes it for a broken number.
pub open spec fn mistaken_for_number(s: Seq<char>) -> bool {
    &&& s.len() >= 3
    &&& (s[0] == '+' || s[0] == '-')
    &&& s[1] == '.'
    &&& '0' <= s[2] <= '9'
    &&& forall|i: int| 0 <= i < s.len() ==> ident_char(#[trigger] s[i])
}

/// Does the text survive printing and parsing?
pub open spec fn printable(s: Seq<char>) -> bool {
    &&& forall|i: int| 0 <= i < s.len() ==> printable_char(#[trigger] s[i])
    &&& !mistaken_for_number(s)
}

/// Do the texts of the entry survive printing and parsing, and does its value? The
/// parser reads the digits of a whole number before its sign, and the least one
/// has no counterpart without a sign.
pub open spec fn printable_entry(e: Entry) -> bool {
    &&& (e.name matches Some(s) ==> printable(s))
    &&& (e.ty matches Some(s) ==> printable(s))
    &&& (e.value matches Scalar::Str(s) ==> printable(s))
    &&& e.value != Scalar::Int(i128::MIN)
}

/// Does all that the tree holds survive printing and parsing?
pub open spec fn printable_tree(t: Tree) -> bool
    decreases t,
{
    &&& printable(t.name)
    &&& forall|i: int| 0 <= i < t.entries.len() ==> printable_entry(#[trigger] t.entries[i])
    &&& match t.children {
        Some(nodes) => forall|i: int| 0 <= i < nodes.len() ==> printable_tree(#[trigger] nodes[i]),
        None => true,
    }
}

pub open spec fn printable_nodes(nodes: Seq<Tree>) -> bool {
    forall|i: int| 0 <= i < nodes.len() ==> printable_tree(#[trigger] nodes[i])
}

/// Does `text` parse as `nodes`?
pub open spec fn parses_as(text: Seq<char>, nodes: Seq<Tree>) -> bool {
    kdl_parsed(text) == Ok::<Seq<Tree>, Seq<char>>(nodes)
}

// ---------------------------------------------------------------------------
// Values
// ---------------------------------------------------------------------------

/// A KDL value in plain Rust. A fractional number is given by its shortest
/// decimal text.
pub enum Atom {
    Str(String),
    Int(i128),
    Float(String),
    Bool(bool),
    Null,
}

impl View for Atom {
    type V = Scalar;

    open spec fn view(&self) -> Scalar {
        match self {
            Atom::Str(s) => Scalar::Str(s@),
            Atom::Int(i) => Scalar::Int(*i),
            Atom::Float(t) => Scalar::Float(t@),
            Atom::Bool(b) => Scalar::Bool(*b),
            Atom::Null => Scalar::Null,
        }
    }
}

impl Atom {
    /// Is a fractional number given by its shortest decimal text?
    pub open spec fn is_shortest(&self) -> bool {
        self matches Atom::Float(t) ==> double_text(t@) == Some(t@)
    }
}

/// Builds the variant of `kdl::KdlValue` that holds the atom's value.
#[verifier::external_body]
pub(crate) fn value_of(a: Atom) -> (r: kdl::KdlValue)
    requires
        a.is_shortest(),
    ensures
        kdl_scalar(r) == a@,
{
    match a {
        Atom::Str(s) => kdl::KdlValue::String(s),
        Atom::Int(i) => kdl::KdlValue::Integer(i),
        Atom::Float(t) => kdl::KdlValue::Float(t.parse().unwrap_or_default()),
        Atom::Bool(b) => kdl::KdlValue::Bool(b),
        Atom::Null => kdl::KdlValue::Null,
    }
}

/// Tells the variants of `kdl::KdlValue` apart.
#[verifier::external_body]
pub(crate) fn atom_of(v: &kdl::KdlValue) -> (r: Atom)
    ensures
        r@ == kdl_scalar(*v),
        r.is_shortest(),
{
    match v {
        kdl::KdlValue::String(s) => Atom::Str(s.clone()),
        kdl::KdlValue::Integer(i) => Atom::Int(*i),
        kdl::KdlValue::Float(d) => Atom::Float(d.to_string()),
        kdl::KdlValue::Bool(b) => Atom::Bool(*b),
        kdl::KdlValue::Null => Atom::Null,
    }
}

/// Formats a `kdl::KdlValue` with `Debug`.
#[verifier::external_body]
pub(crate) fn debug_text(v: &kdl::KdlValue) -> (r: String)
    ensures
        r@ == scalar_debug(kdl_scalar(*v)),
{
    format!("{v:?}")
}

// ---------------------------------------------------------------------------
// Entries
// ---------------------------------------------------------------------------

/// Calls `kdl::KdlEntry::new`: an argument.
#[verifier::external_body]
pub(crate) fn argument(value: kdl::KdlValue) -> (r: kdl::KdlEntry)
    ensures
        kdl_entry(r) == (Entry { name: None, ty: None, value: kdl_scalar(value) }),
        plain_entry(r),
{
    kdl::KdlEntry::new(value)
}

/// Calls `kdl::KdlEntry::new_prop`: a property.
#[verifier::external_body]
pub(crate) fn property(name: &str, value: kdl::KdlValue) -> (r: kdl::KdlEntry)
    ensures
        kdl_entry(r) == (Entry { name: Some(name@), ty: None, value: kdl_scalar(value) }),
        plain_entry(r),
{
    kdl::KdlEntry::new_prop(name, value)
}

/// Calls `kdl::KdlEntry::set_ty`.
#[verifier::external_body]
pub(crate) fn annotate(e: &mut kdl::KdlEntry, ty: &str)
    ensures
        kdl_entry(*final(e)) == (Entry { ty: Some(ty@), ..kdl_entry(*old(e)) }),
        plain_entry(*final(e)) == plain_entry(*old(e)),
{
    e.set_ty(ty);
}

/// Calls `kdl::KdlEntry::name`.
#[verifier::external_body]
pub(crate) fn entry_name(e: &kdl::KdlEntry) -> (r: Option<&str>)
    ensures
        match r {
            Some(s) => kdl_entry(*e).name == Some(s@),
            None => kdl_entry(*e).name is None,
        },
{
    e.name().map(|i| i.value())
}

/// Calls `kdl::KdlEntry::ty`.
#[verifier::external_body]
pub(crate) fn entry_ty(e: &kdl::KdlEntry) -> (r: Option<&str>)
    ensures
        match r {
            Some(s) => kdl_entry(*e).ty == Some(s@),
            None => kdl_entry(*e).ty is None,
        },
{
    e.ty().map(|i| i.value())
}

/// Calls `kdl::KdlEntry::value`.
#[verifier::external_body]
pub(crate) fn entry_value(e: &kdl::KdlEntry) -> (r: &kdl::KdlValue)
    ensures
        kdl_scalar(*r) == kdl_entry(*e).value,
{
    e.value()
}

// ---------------------------------------------------------------------------
// Nodes
// ---------------------------------------------------------------------------

/// Calls `kdl::KdlNode::new`.
#[verifier::external_body]
pub(crate) fn new_node(name: &str) -> (r: kdl::KdlNode)
    ensures
        kdl_node(r) == Tree::bare(name@),
        plain_node(r),
{
    kdl::KdlNode::new(name)
}

/// Calls `kdl::KdlNode::push`, which appends an entry.
#[verifier::external_body]
pub(crate) fn push_entry(n: &mut kdl::KdlNode, e: kdl::KdlEntry)
    ensures
        kdl_node(*final(n)) == kdl_node(*old(n)).with_entry(kdl_entry(e)),
        plain_node(*final(n)) == (plain_node(*old(n)) && plain_entry(e)),
{
    n.push(e);
}

/// Calls `kdl::KdlNode::set_children`.
#[verifier::external_body]
pub(crate) fn set_children(n: &mut kdl::KdlNode, children: kdl::KdlDocument)
    requires
        kdl_node(*old(n)).children is None,
    ensures
        kdl_node(*final(n)) == kdl_node(*old(n)).with_children(kdl_nodes(children)),
        plain_node(*final(n)) == (plain_node(*old(n)) && plain_document(children)),
{
    n.set_children(children);
}

/// Calls `kdl::KdlNode::name`.
#[verifier::external_body]
pub(crate) fn node_name(n: &kdl::KdlNode) -> (r: &str)
    ensures
        r@ == kdl_node(*n).name,
{
    n.name().value()
}

/// The value of the last entry called `name`.
pub open spec fn prop_in(entries: Seq<Entry>, name: Seq<char>) -> Option<Scalar>
    decreases entries.len(),
{
    if entries.len() == 0 {
        None
    } else if entries.last().name == Some(name) {
        Some(entries.last().value)
    } else {
        prop_in(entries.drop_last(), name)
    }
}

/// Calls `kdl::KdlNode::get` with a property name: the last property of that
/// name counts.
#[verifier::external_body]
pub(crate) fn prop<'a>(n: &'a kdl::KdlNode, name: &str) -> (r: Option<&'a kdl::KdlValue>)
    ensures
        match r {
            Some(v) => prop_in(kdl_node(*n).entries, name@) == Some(kdl_scalar(*v)),
            None => prop_in(kdl_node(*n).entries, name@) is None,
        },
{
    n.get(name)
}

/// The entries that a list of `kdl::KdlEntry` holds.
pub open spec fn entry_list(s: Seq<kdl::KdlEntry>) -> Seq<Entry> {
    s.map_values(|e: kdl::KdlEntry| kdl_entry(e))
}

/// Calls `kdl::KdlNode::entries`.
#[verifier::external_body]
pub(crate) fn entries(n: &kdl::KdlNode) -> (r: &[kdl::KdlEntry])
    ensures
        entry_list(r@) == kdl_node(*n).entries,
{
    n.entries()
}

/// Calls `kdl::KdlNode::children`.
#[verifier::external_body]
pub(crate) fn children(n: &kdl::KdlNode) -> (r: Option<&kdl::KdlDocument>)
    ensures
        match r {
            Some(d) => kdl_node(*n).children == Some(kdl_nodes(*d)),
            None => kdl_node(*n).children is None,
        },
{
    n.children()
}

// ---------------------------------------------------------------------------
// Documents
// ---------------------------------------------------------------------------

/// Calls `kdl::KdlDocument::new`.
#[verifier::external_body]
pub(crate) fn new_document() -> (r: kdl::KdlDocument)
    ensures
        kdl_nodes(r) == Seq::<Tree>::empty(),
        plain_document(r),
{
    kdl::KdlDocument::new()
}

/// Appends a node to the list behind `kdl::KdlDocument::nodes_mut`.
#[verifier::external_body]
pub(crate) fn push_node(d: &mut kdl::KdlDocument, n: kdl::KdlNode)
    ensures
        kdl_nodes(*final(d)) == kdl_nodes(*old(d)).push(kdl_node(n)),
        plain_document(*final(d)) == (plain_document(*old(d)) && plain_node(n)),
{
    d.nodes_mut().push(n);
}

/// The trees that a list of `kdl::KdlNode` holds.
pub open spec fn node_list(s: Seq<kdl::KdlNode>) -> Seq<Tree> {
    s.map_values(|n: kdl::KdlNode| kdl_node(n))
}

/// Calls `kdl::KdlDocument::nodes`.
#[verifier::external_body]
pub(crate) fn nodes(d: &kdl::KdlDocument) -> (r: &[kdl::KdlNode])
    ensures
        node_list(r@) == kdl_nodes(*d),
{
    d.nodes()
}

/// The first node called `name`.
pub open spec fn named(nodes: Seq<Tree>, name: Seq<char>) -> Option<Tree>
    decreases nodes.len(),
{
    if nodes.len() == 0 {
        None
    } else if nodes[0].name == name {
        Some(nodes[0])
    } else {
        named(nodes.drop_first(), name)
    }
}

/// Calls `kdl::KdlDocument::get`: the first node of that name.
#[verifier::external_body]
pub(crate) fn child<'a>(d: &'a kdl::KdlDocument, name: &str) -> (r: Option<&'a kdl::KdlNode>)
    ensures
        match r {
            Some(n) => named(kdl_nodes(*d), name@) == Some(kdl_node(*n)),
            None => named(kdl_nodes(*d), name@) is None,
        },
{
    d.get(name)
}

/// Calls `kdl::KdlDocument::parse_v2`, and `to_string` on its error. The parser
/// calls itself for each level of nesting and for each closing brace that closes
/// nothing, and sets no limit: a text that nests very deeply, or that holds a very
/// long run of such braces, needs as much of the stack.
#[verifier::external_body]
pub(crate) fn parse(text: &str) -> (r: Result<kdl::KdlDocument, String>)
    ensures
        match r {
            Ok(d) => kdl_parsed(text@) matches Ok(v) && v == kdl_nodes(d),
            Err(e) => kdl_parsed(text@) matches Err(v) && v == e@,
        },
{
    kdl::KdlDocument::parse_v2(text).map_err(|e| e.to_string())
}

/// Calls `kdl::KdlDocument::autoformat` and `to_string`. For a document without
/// a layout of its own the text depends on its nodes alone, and where all that
/// they hold is printable it parses back as these nodes.
#[verifier::external_body]
pub(crate) fn print(d: kdl::KdlDocument) -> (r: String)
    requires
        plain_document(d),
    ensures
        r@ == kdl_text(kdl_nodes(d)),
        printable_nodes(kdl_nodes(d)) ==> parses_as(r@, kdl_nodes(d)),
{
    let mut document = d;
    document.autoformat();
    document.to_string()
}

} // verus!
