//! The component model: a JSON value that a model wrote, laid out in rows.

use crate::json::{
    Json, MAX_DEPTH, Shape, decode, encode, json_decoded, json_text, json_tree, member_trees,
    members, nests_within, shape, trees,
};
use crate::ir::views;
use crate::text::{
    char_upper, chars_of, find_char, first_of, first_of_is_first, replace, replaced, slice,
    string_of, trim, trimmed, upper,
};
use vstd::prelude::*;

verus! {

// ---------------------------------------------------------------------------
// Finding the value
// ---------------------------------------------------------------------------

/// Where the brace that matches the first opened one stands, from position `i`
/// on. `depth` braces are open; braces inside texts do not count.
pub open spec fn closing(s: Seq<char>, i: int, depth: int, in_text: bool, escaped: bool) -> Option<
    int,
>
    decreases s.len() - i,
{
    if i < 0 || i >= s.len() {
        None
    } else {
        let c = s[i];
        if in_text {
            if escaped {
                closing(s, i + 1, depth, true, false)
            } else if c == '\\' {
                closing(s, i + 1, depth, true, true)
            } else {
                closing(s, i + 1, depth, c != '"', false)
            }
        } else if c == '"' {
            closing(s, i + 1, depth, true, false)
        } else if c == '{' {
            closing(s, i + 1, depth + 1, false, false)
        } else if c == '}' {
            if depth == 1 {
                Some(i)
            } else {
                closing(s, i + 1, depth - 1, false, false)
            }
        } else {
            closing(s, i + 1, depth, false, false)
        }
    }
}

/// The first braced part of a text.
pub open spec fn braced(s: Seq<char>) -> Option<Seq<char>> {
    match first_of(s, '{') {
        None => None,
        Some(start) => match closing(s, start, 0, false, false) {
            None => None,
            Some(end) => Some(s.subrange(start, end + 1)),
        },
    }
}

/// What a text reads as: as a whole, or else by its first braced part.
pub open spec fn component_json(s: Seq<char>) -> Option<Json> {
    match json_decoded(trim(s)) {
        Ok(tree) => Some(tree),
        Err(_) => match braced(s) {
            None => None,
            Some(part) => match json_decoded(part) {
                Ok(tree) => Some(tree),
                Err(_) => None,
            },
        },
    }
}

/// A matching brace stands at or behind the place where the search began.
proof fn closing_is_a_brace(s: Seq<char>, i: int, depth: int, in_text: bool, escaped: bool)
    ensures
        closing(s, i, depth, in_text, escaped) matches Some(end) ==> i <= end < s.len() && s[end]
            == '}',
    decreases s.len() - i,
{
    if 0 <= i < s.len() {
        let c = s[i];
        if in_text {
            if escaped {
                closing_is_a_brace(s, i + 1, depth, true, false);
            } else if c == '\\' {
                closing_is_a_brace(s, i + 1, depth, true, true);
            } else {
                closing_is_a_brace(s, i + 1, depth, c != '"', false);
            }
        } else if c == '"' {
            closing_is_a_brace(s, i + 1, depth, true, false);
        } else if c == '{' {
            closing_is_a_brace(s, i + 1, depth + 1, false, false);
        } else if c == '}' {
            if depth != 1 {
                closing_is_a_brace(s, i + 1, depth - 1, false, false);
            }
        } else {
            closing_is_a_brace(s, i + 1, depth, false, false);
        }
    }
}

/// A braced part begins with an opening brace and ends with a closing one.
pub proof fn braced_part_is_braced(s: Seq<char>)
    ensures
        braced(s) matches Some(part) ==> part.len() >= 2 && part[0] == '{' && part.last() == '}',
{
    if let Some(start) = first_of(s, '{') {
        first_of_is_first(s, '{');
        closing_is_a_brace(s, start, 0, false, false);
    }
}

/// Words before the first opening brace do not change which part is found.
pub proof fn words_before_do_not_matter(words: Seq<char>, s: Seq<char>)
    requires
        !words.contains('{'),
        first_of(s, '{') == Some(0int),
    ensures
        braced(words + s) == braced(s),
{
    let all = words + s;
    first_of_is_first(s, '{');
    first_of_is_first(all, '{');
    assert(all[words.len() as int] == s[0]);
    match first_of(all, '{') {
        Some(at) => {
            if at < words.len() {
                assert(words[at] == '{');
            } else if at > words.len() {
                assert(all[words.len() as int] == '{');
            }
        },
        None => {
            assert(all[words.len() as int] == '{');
        },
    }
    closing_shifted(words, s, 0, 0, false, false);
    closing_is_a_brace(s, 0, 0, false, false);
    if let Some(end) = closing(s, 0, 0, false, false) {
        assert(all.subrange(words.len() as int, words.len() + end + 1) =~= s.subrange(0, end + 1));
    }
}

proof fn closing_shifted(
    words: Seq<char>,
    s: Seq<char>,
    i: int,
    depth: int,
    in_text: bool,
    escaped: bool,
)
    requires
        i >= 0,
    ensures
        closing(words + s, words.len() + i, depth, in_text, escaped) == (match closing(
            s,
            i,
            depth,
            in_text,
            escaped,
        ) {
            Some(end) => Some(words.len() + end),
            None => None,
        }),
    decreases s.len() - i,
{
    if i < s.len() {
        let c = s[i];
        assert((words + s)[words.len() + i] == c);
        if in_text {
            if escaped {
                closing_shifted(words, s, i + 1, depth, true, false);
            } else if c == '\\' {
                closing_shifted(words, s, i + 1, depth, true, true);
            } else {
                closing_shifted(words, s, i + 1, depth, c != '"', false);
            }
        } else if c == '"' {
            closing_shifted(words, s, i + 1, depth, true, false);
        } else if c == '{' {
            closing_shifted(words, s, i + 1, depth + 1, false, false);
        } else if c == '}' {
            if depth != 1 {
                closing_shifted(words, s, i + 1, depth - 1, false, false);
            }
        } else {
            closing_shifted(words, s, i + 1, depth, false, false);
        }
    }
}

/// Where the brace that matches the one at `start` stands.
fn find_closing(s: &[char], start: usize) -> (r: Option<usize>)
    requires
        start < s@.len(),
        s@[start as int] == '{',
    ensures
        match r {
            Some(end) => closing(s@, start as int, 0, false, false) == Some(end as int) && start
                <= end < s@.len(),
            None => closing(s@, start as int, 0, false, false) is None,
        },
{
    let mut depth: usize = 0;
    let mut in_text = false;
    let mut escaped = false;
    let mut i: usize = start;
    while i < s.len()
        invariant
            start <= i <= s@.len(),
            depth <= i - start,
            i == start ==> !in_text && s@[start as int] == '{',
            i > start ==> depth > 0,
            escaped ==> in_text,
            closing(s@, start as int, 0, false, false) == closing(
                s@,
                i as int,
                depth as int,
                in_text,
                escaped,
            ),
        decreases s.len() - i,
    {
        let c = s[i];
        if in_text {
            if escaped {
                escaped = false;
            } else if c == '\\' {
                escaped = true;
            } else if c == '"' {
                in_text = false;
            }
        } else if c == '"' {
            in_text = true;
        } else if c == '{' {
            depth = depth + 1;
        } else if c == '}' {
            if depth == 1 {
                return Some(i);
            }
            depth = depth - 1;
        }
        i = i + 1;
    }
    None
}

/// The value that a model wrote: the whole text, or else its first braced part.
/// Nothing where neither reads as JSON.
pub fn parse_component_json(s: &str) -> (r: Option<serde_json::Value>)
    ensures
        match r {
            Some(v) => component_json(s@) == Some(json_tree(v)) && nests_within(
                json_tree(v),
                MAX_DEPTH as nat,
            ),
            None => component_json(s@) is None,
        },
{
    let chars = chars_of(s);
    let whole = string_of(trimmed(chars.as_slice()).as_slice());
    if let Ok(v) = decode(whole.as_str()) {
        return Some(v);
    }
    match find_char(chars.as_slice(), '{') {
        None => None,
        Some(start) => {
            proof {
                first_of_is_first(s@, '{');
            }
            match find_closing(chars.as_slice(), start) {
                None => None,
                Some(end) => {
                    let count: usize = chars.len();
                    assert(end < count);
                    let part = string_of(slice(chars.as_slice(), start, end + 1).as_slice());
                    match decode(part.as_str()) {
                        Ok(v) => Some(v),
                        Err(_) => None,
                    }
                },
            }
        },
    }
}

// ---------------------------------------------------------------------------
// Laying it out
// ---------------------------------------------------------------------------

/// A key as a label: blanks for underscores and hyphens, and a capital in front.
pub open spec fn human_key(key: Seq<char>) -> Seq<char> {
    let spaced = replaced(replaced(key, '_', ' '), '-', ' ');
    if spaced.len() == 0 {
        Seq::empty()
    } else {
        char_upper(spaced[0]) + spaced.drop_first()
    }
}

pub fn humanize_key(key: &str) -> (r: String)
    ensures
        r@ == human_key(key@),
{
    let chars = chars_of(key);
    let spaced = replace(replace(chars.as_slice(), '_', ' ').as_slice(), '-', ' ');
    if spaced.len() == 0 {
        String::new()
    } else {
        let rest = string_of(slice(spaced.as_slice(), 1, spaced.len()).as_slice());
        assert(rest@ =~= spaced@.drop_first());
        upper(spaced[0]).concat(rest.as_str())
    }
}

/// A value as a text: a dash for nothing, a text as it is, anything else as JSON.
pub open spec fn scalar_text(tree: Json) -> Seq<char> {
    match tree {
        Json::Null => "—"@,
        Json::Bool(b) => if b {
            "true"@
        } else {
            "false"@
        },
        Json::Str(s) => s,
        _ => json_text(tree),
    }
}

pub fn component_scalar_string(v: &serde_json::Value) -> (r: String)
    ensures
        r@ == scalar_text(json_tree(*v)),
{
    match shape(v) {
        Shape::Null => String::from_str("—"),
        Shape::Bool(b) => if b {
            String::from_str("true")
        } else {
            String::from_str("false")
        },
        Shape::Str(s) => String::from_str(s),
        _ => encode(v),
    }
}

/// A row of the component model.
#[derive(Debug, Clone, PartialEq)]
pub enum ComponentRow {
    /// A section of the outermost object.
    Section { title: String },
    /// The name of a nested object or list.
    Label { title: String, depth: u8 },
    /// A name with its value.
    Field { name: String, value: String, depth: u8 },
    /// An item of a list.
    Bullet { text: String, depth: u8 },
    /// A value that stands alone.
    Scalar { text: String, depth: u8 },
}

pub enum ComponentRowView {
    Section { title: Seq<char> },
    Label { title: Seq<char>, depth: nat },
    Field { name: Seq<char>, value: Seq<char>, depth: nat },
    Bullet { text: Seq<char>, depth: nat },
    Scalar { text: Seq<char>, depth: nat },
}

impl View for ComponentRow {
    type V = ComponentRowView;

    open spec fn view(&self) -> ComponentRowView {
        match *self {
            ComponentRow::Section { title } => ComponentRowView::Section { title: title@ },
            ComponentRow::Label { title, depth } => ComponentRowView::Label {
                title: title@,
                depth: depth as nat,
            },
            ComponentRow::Field { name, value, depth } => ComponentRowView::Field {
                name: name@,
                value: value@,
                depth: depth as nat,
            },
            ComponentRow::Bullet { text, depth } => ComponentRowView::Bullet {
                text: text@,
                depth: depth as nat,
            },
            ComponentRow::Scalar { text, depth } => ComponentRowView::Scalar {
                text: text@,
                depth: depth as nat,
            },
        }
    }
}

/// The text of an item of a list.
pub open spec fn bullet_text(tree: Json) -> Seq<char> {
    "• "@ + (match tree {
        Json::Str(s) => s,
        _ => json_text(tree),
    })
}

/// The rows of a value: the members of an object, the items of a list, or the
/// value alone.
pub open spec fn value_rows(tree: Json, depth: nat) -> Seq<ComponentRowView>
    decreases tree, 0nat,
{
    match tree {
        Json::Object(members) => members_rows(members, depth, members.len()),
        Json::Array(items) => Seq::new(
            items.len(),
            |i: int| ComponentRowView::Bullet { text: bullet_text(items[i]), depth },
        ),
        _ => seq![ComponentRowView::Scalar { text: scalar_text(tree), depth }],
    }
}

/// The rows of the first `n` members of an object.
pub open spec fn members_rows(members: Seq<(Seq<char>, Json)>, depth: nat, n: nat) -> Seq<
    ComponentRowView,
>
    decreases members, n,
{
    if n == 0 || n > members.len() {
        Seq::empty()
    } else {
        let m = members[n - 1];
        let own = match m.1 {
            Json::Object(_) => member_head(m.0, depth) + value_rows(m.1, depth + 1),
            Json::Array(_) => member_head(m.0, depth) + value_rows(m.1, depth + 1),
            _ => seq![
                ComponentRowView::Field {
                    name: human_key(m.0),
                    value: scalar_text(m.1),
                    depth,
                },
            ],
        };
        members_rows(members, depth, (n - 1) as nat) + own
    }
}

/// The row above a nested object or list.
pub open spec fn member_head(key: Seq<char>, depth: nat) -> Seq<ComponentRowView> {
    if depth == 0 {
        seq![ComponentRowView::Section { title: human_key(key) }]
    } else {
        seq![ComponentRowView::Label { title: human_key(key), depth }]
    }
}

/// Append the rows of a list.
fn push_bullets(items: &Vec<serde_json::Value>, depth: u8, out: &mut Vec<ComponentRow>)
    ensures
        views(final(out)@) == views(old(out)@) + value_rows(
            Json::Array(trees(items@)),
            depth as nat,
        ),
{
    let ghost start = views(out@);
    let ghost all = value_rows(Json::Array(trees(items@)), depth as nat);
    assert(start =~= start + all.take(0));
    for i in 0..items.len()
        invariant
            all == value_rows(Json::Array(trees(items@)), depth as nat),
            all.len() == items@.len(),
            views(out@) == start + all.take(i as int),
    {
        let v = &items[i];
        assert(trees(items@)[i as int] == json_tree(*v));
        let text = match shape(v) {
            Shape::Str(s) => String::from_str(s),
            _ => encode(v),
        };
        let row = ComponentRow::Bullet { text: String::from_str("• ").concat(text.as_str()), depth };
        assert(row@ == all[i as int]);
        let ghost done = views(out@);
        out.push(row);
        assert(views(out@) =~= done.push(row@));
        assert(all.take(i + 1) =~= all.take(i as int).push(all[i as int]));
        assert(views(out@) =~= start + all.take(i + 1));
    }
    assert(all.take(all.len() as int) =~= all);
}

/// Append a row.
fn push_row(row: ComponentRow, out: &mut Vec<ComponentRow>)
    ensures
        views(final(out)@) == views(old(out)@).push(row@),
{
    let ghost done = views(out@);
    out.push(row);
    assert(views(out@) =~= done.push(row@));
}

/// A member of an object nests less deep than the object.
proof fn member_nests(tree: Json, room: nat, i: int)
    requires
        nests_within(tree, room),
        tree is Object,
        0 <= i < tree->Object_0.len(),
    ensures
        room > 0,
        nests_within(tree->Object_0[i].1, (room - 1) as nat),
{
}

/// Append the rows of a value that nests no deeper than `room`.
fn push_value(v: &serde_json::Value, depth: u8, room: u8, out: &mut Vec<ComponentRow>)
    requires
        nests_within(json_tree(*v), room as nat),
        depth + room <= u8::MAX,
    ensures
        views(final(out)@) == views(old(out)@) + value_rows(json_tree(*v), depth as nat),
    decreases room,
{
    let ghost start = views(out@);
    let ghost tree = json_tree(*v);
    match shape(v) {
        Shape::Object => {
            let list = members(v);
            let ghost all = member_trees(list@);
            assert(tree == Json::Object(all));
            assert(start =~= start + members_rows(all, depth as nat, 0));
            for i in 0..list.len()
                invariant
                    all == member_trees(list@),
                    tree == Json::Object(all),
                    nests_within(tree, room as nat),
                    depth + room <= u8::MAX,
                    views(out@) == start + members_rows(all, depth as nat, i as nat),
            {
                let (key, value) = list[i];
                assert(all[i as int] == (key@, json_tree(*value)));
                proof {
                    member_nests(tree, room as nat, i as int);
                }
                let ghost before = views(out@);
                match shape(value) {
                    Shape::Array(items) => {
                        push_head(key, depth, out);
                        push_bullets(items, depth + 1, out);
                        assert(json_tree(*value) == Json::Array(trees(items@)));
                    },
                    Shape::Object => {
                        push_head(key, depth, out);
                        push_value(value, depth + 1, room - 1, out);
                    },
                    _ => {
                        let name = humanize_key(key);
                        let text = component_scalar_string(value);
                        push_row(ComponentRow::Field { name, value: text, depth }, out);
                    },
                }
                assert(views(out@) =~= start + members_rows(all, depth as nat, (i + 1) as nat));
            }
        },
        Shape::Array(items) => {
            push_bullets(items, depth, out);
        },
        _ => {
            let text = component_scalar_string(v);
            push_row(ComponentRow::Scalar { text, depth }, out);
            assert(views(out@) =~= start + value_rows(tree, depth as nat));
        },
    }
}

/// Append the row above a nested object or list.
fn push_head(key: &str, depth: u8, out: &mut Vec<ComponentRow>)
    ensures
        views(final(out)@) == views(old(out)@) + member_head(key@, depth as nat),
{
    let ghost start = views(out@);
    let title = humanize_key(key);
    let row = if depth == 0 {
        ComponentRow::Section { title }
    } else {
        ComponentRow::Label { title, depth }
    };
    push_row(row, out);
    assert(views(out@) =~= start + member_head(key@, depth as nat));
}

/// The rows of a component model.
pub fn component_rows(v: &serde_json::Value) -> (r: Vec<ComponentRow>)
    requires
        nests_within(json_tree(*v), MAX_DEPTH as nat),
    ensures
        views(r@) == value_rows(json_tree(*v), 0),
{
    let mut out: Vec<ComponentRow> = Vec::new();
    push_value(v, 0, 127, &mut out);
    assert(views(out@) =~= value_rows(json_tree(*v), 0));
    out
}

} // verus!
