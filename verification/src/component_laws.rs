//! What is shown of a component model, said of the JSON values in it.

use crate::component::{
    ComponentRowView, braced, closing, component_json, human_key, members_rows, scalar_text,
    value_rows,
};
use crate::json::{Json, json_decoded, json_text};
use crate::text::{char_upper, first_of, first_of_is_first, replaced, trim};
use vstd::prelude::*;

verus! {

// ---------------------------------------------------------------------------
// Rows
// ---------------------------------------------------------------------------

/// Is this a member that stands in a row of its own: no object and no list?
pub open spec fn is_plain(v: Json) -> bool {
    !(v is Object) && !(v is Array)
}

/// Is `text` how a plain value is shown? A text as it is, a truth value by its name, a
/// number as JSON, and a dash for null alone.
pub open spec fn shows(v: Json, text: Seq<char>) -> bool {
    match v {
        Json::Null => text == "—"@,
        Json::Bool(b) => text == (if b {
            "true"@
        } else {
            "false"@
        }),
        Json::Str(s) => text == s,
        Json::Number(n) => text == json_text(Json::Number(n)),
        _ => false,
    }
}

/// A plain value is shown by itself, wherever it stands.
pub proof fn values_are_shown_as_they_are(v: Json)
    requires
        is_plain(v),
    ensures
        shows(v, scalar_text(v)),
{
}

/// Is `m` a member of an object that is reached from `tree` by going from object to
/// object along `path`? The last step of the path is the member itself.
pub open spec fn reached(tree: Json, path: Seq<int>, m: (Seq<char>, Json)) -> bool
    decreases path.len(),
{
    &&& path.len() > 0
    &&& tree matches Json::Object(members)
    &&& 0 <= path[0] < members.len()
    &&& if path.len() == 1 {
        members[path[0]] == m
    } else {
        reached(members[path[0]].1, path.drop_first(), m)
    }
}

proof fn own_rows_are_shown(members: Seq<(Seq<char>, Json)>, depth: nat, n: nat, i: int)
    requires
        0 <= i < n <= members.len(),
    ensures
        is_plain(members[i].1) ==> members_rows(members, depth, n).contains(
            ComponentRowView::Field {
                name: human_key(members[i].0),
                value: scalar_text(members[i].1),
                depth,
            },
        ),
        !is_plain(members[i].1) ==> forall|row: ComponentRowView| #[trigger]
            value_rows(members[i].1, depth + 1).contains(row) ==> members_rows(
                members,
                depth,
                n,
            ).contains(row),
        !is_plain(members[i].1) ==> members_rows(members, depth, n).contains(
            if depth == 0 {
                ComponentRowView::Section { title: human_key(members[i].0) }
            } else {
                ComponentRowView::Label { title: human_key(members[i].0), depth }
            },
        ),
    decreases n,
{
    let all = members_rows(members, depth, n);
    let before = members_rows(members, depth, (n - 1) as nat);
    let m = members[n - 1];
    let own = all.skip(before.len() as int);
    assert(all =~= before + own);
    assert forall|row: ComponentRowView| own.contains(row) || before.contains(row) implies
        #[trigger] all.contains(row) by {
        if before.contains(row) {
            let k = choose|k: int| 0 <= k < before.len() && before[k] == row;
            assert(all[k] == row);
        } else {
            let k = choose|k: int| 0 <= k < own.len() && own[k] == row;
            assert(all[before.len() + k] == row);
        }
    }
    if i < n - 1 {
        own_rows_are_shown(members, depth, (n - 1) as nat, i);
        if is_plain(members[i].1) {
            assert(all.contains(
                ComponentRowView::Field {
                    name: human_key(members[i].0),
                    value: scalar_text(members[i].1),
                    depth,
                },
            ));
        } else {
            assert forall|row: ComponentRowView| #[trigger]
                value_rows(members[i].1, depth + 1).contains(row) implies all.contains(row) by {
                assert(before.contains(row));
            }
        }
    } else if is_plain(m.1) {
        let row = ComponentRowView::Field {
            name: human_key(m.0),
            value: scalar_text(m.1),
            depth,
        };
        assert(all[before.len() as int] == row);
    } else {
        let below = value_rows(m.1, depth + 1);
        assert(all.len() == before.len() + 1 + below.len());
        assert forall|row: ComponentRowView| #[trigger] below.contains(row) implies all.contains(
            row,
        ) by {
            let k = choose|k: int| 0 <= k < below.len() && below[k] == row;
            assert(all[before.len() + 1 + k] == row);
        }
        let head = if depth == 0 {
            ComponentRowView::Section { title: human_key(m.0) }
        } else {
            ComponentRowView::Label { title: human_key(m.0), depth }
        };
        assert(all[before.len() as int] == head);
    }
}

/// A member that is a text, a number, a truth value or null has a row with its label and
/// its own value, however deep the object lies. An object or a list has a row with its
/// label.
pub proof fn every_member_is_shown(tree: Json, path: Seq<int>, m: (Seq<char>, Json), depth: nat)
    requires
        reached(tree, path, m),
    ensures
        is_plain(m.1) ==> exists|text: Seq<char>|
            #![trigger shows(m.1, text)]
            shows(m.1, text) && value_rows(tree, depth).contains(
                ComponentRowView::Field {
                    name: human_key(m.0),
                    value: text,
                    depth: (depth + path.len() - 1) as nat,
                },
            ),
        !is_plain(m.1) && depth + path.len() > 1 ==> value_rows(tree, depth).contains(
            ComponentRowView::Label {
                title: human_key(m.0),
                depth: (depth + path.len() - 1) as nat,
            },
        ),
        !is_plain(m.1) && depth == 0 && path.len() == 1 ==> value_rows(tree, depth).contains(
            ComponentRowView::Section { title: human_key(m.0) },
        ),
    decreases path.len(),
{
    let members = tree->Object_0;
    let i = path[0];
    own_rows_are_shown(members, depth, members.len(), i);
    if path.len() > 1 {
        let next = members[i].1;
        every_member_is_shown(next, path.drop_first(), m, depth + 1);
        if is_plain(m.1) {
            let text = choose|text: Seq<char>|
                #![trigger shows(m.1, text)]
                shows(m.1, text) && value_rows(next, depth + 1).contains(
                    ComponentRowView::Field {
                        name: human_key(m.0),
                        value: text,
                        depth: (depth + path.len() - 1) as nat,
                    },
                );
            assert(shows(m.1, text));
        }
    } else if is_plain(m.1) {
        assert(shows(m.1, scalar_text(m.1)));
    }
}

/// Every field that is shown is a member of the model, with its label and its own value:
/// a dash is shown only where the member is null, or is that text.
pub proof fn every_field_is_a_member(tree: Json, depth: nat, i: int)
    requires
        0 <= i < value_rows(tree, depth).len(),
        value_rows(tree, depth)[i] is Field,
    ensures
        exists|path: Seq<int>, m: (Seq<char>, Json)| #[trigger]
            reached(tree, path, m) && is_plain(m.1) && field_of(
                value_rows(tree, depth)[i],
                m,
                (depth + path.len() - 1) as nat,
            ),
    decreases tree, 0nat,
{
    if let Json::Object(members) = tree {
        field_among_members(tree, members, depth, members.len(), i);
    }
}

/// Is this the row of a plain member?
pub open spec fn field_of(row: ComponentRowView, m: (Seq<char>, Json), depth: nat) -> bool {
    row matches ComponentRowView::Field { name, value, depth: d } && name == human_key(m.0)
        && shows(m.1, value) && d == depth
}

proof fn field_among_members(
    tree: Json,
    members: Seq<(Seq<char>, Json)>,
    depth: nat,
    n: nat,
    i: int,
)
    requires
        tree == Json::Object(members),
        n <= members.len(),
        0 <= i < members_rows(members, depth, n).len(),
        members_rows(members, depth, n)[i] is Field,
    ensures
        exists|path: Seq<int>, m: (Seq<char>, Json)| #[trigger]
            reached(tree, path, m) && is_plain(m.1) && field_of(
                members_rows(members, depth, n)[i],
                m,
                (depth + path.len() - 1) as nat,
            ),
    decreases members, n,
{
    let all = members_rows(members, depth, n);
    if n > 0 {
        let before = members_rows(members, depth, (n - 1) as nat);
        let m = members[n - 1];
        if i < before.len() {
            assert(all[i] == before[i]);
            field_among_members(tree, members, depth, (n - 1) as nat, i);
        } else if is_plain(m.1) {
            let path = seq![n - 1];
            assert(i == before.len());
            assert(reached(tree, path, m));
            assert(shows(m.1, scalar_text(m.1)));
            assert(field_of(all[i], m, (depth + path.len() - 1) as nat));
        } else {
            let below = value_rows(m.1, depth + 1);
            assert(i > before.len());
            let k = i - before.len() - 1;
            assert(all[i] == below[k]);
            every_field_is_a_member(m.1, depth + 1, k);
            let (path, found) = choose|path: Seq<int>, found: (Seq<char>, Json)| #[trigger]
                reached(m.1, path, found) && is_plain(found.1) && field_of(
                    below[k],
                    found,
                    (depth + 1 + path.len() - 1) as nat,
                );
            let longer = seq![n - 1] + path;
            assert(longer.drop_first() =~= path);
            assert(longer[0] == n - 1);
            assert(reached(tree, longer, found));
            assert(field_of(all[i], found, (depth + longer.len() - 1) as nat));
        }
    }
}

proof fn members_rows_of_two(
    a: Seq<(Seq<char>, Json)>,
    b: Seq<(Seq<char>, Json)>,
    depth: nat,
    n: nat,
)
    requires
        n <= b.len(),
    ensures
        members_rows(a + b, depth, a.len() + n) == members_rows(a, depth, a.len())
            + members_rows(b, depth, n),
    decreases n,
{
    if n == 0 {
        members_rows_of_front(a, b, depth, a.len());
        assert(members_rows(a, depth, a.len()) + members_rows(b, depth, 0) =~= members_rows(
            a,
            depth,
            a.len(),
        ));
    } else {
        members_rows_of_two(a, b, depth, (n - 1) as nat);
        assert((a + b)[a.len() + n - 1] == b[n - 1]);
        assert(members_rows(a + b, depth, a.len() + n) =~= members_rows(a, depth, a.len())
            + members_rows(b, depth, n));
    }
}

proof fn members_rows_of_front(
    a: Seq<(Seq<char>, Json)>,
    b: Seq<(Seq<char>, Json)>,
    depth: nat,
    n: nat,
)
    requires
        n <= a.len(),
    ensures
        members_rows(a + b, depth, n) == members_rows(a, depth, n),
    decreases n,
{
    if n > 0 {
        members_rows_of_front(a, b, depth, (n - 1) as nat);
        assert((a + b)[n - 1] == a[n - 1]);
    }
}

/// The rows of an object are those of its members, one behind the other in their order.
pub proof fn members_stand_in_their_order(
    a: Seq<(Seq<char>, Json)>,
    b: Seq<(Seq<char>, Json)>,
    depth: nat,
)
    ensures
        value_rows(Json::Object(a + b), depth) == value_rows(Json::Object(a), depth) + value_rows(
            Json::Object(b),
            depth,
        ),
{
    members_rows_of_two(a, b, depth, b.len());
    assert((a + b).len() == a.len() + b.len());
}

/// A single member takes one row where it is plain, and else a row with its label and the
/// rows of what it holds, one step deeper.
pub proof fn one_member_is_shown(key: Seq<char>, v: Json, depth: nat)
    ensures
        ({
            let rows = value_rows(Json::Object(seq![(key, v)]), depth);
            if is_plain(v) {
                rows.len() == 1
            } else {
                &&& rows.len() == 1 + value_rows(v, depth + 1).len()
                &&& rows.drop_first() == value_rows(v, depth + 1)
                &&& rows[0] == (if depth == 0 {
                    ComponentRowView::Section { title: human_key(key) }
                } else {
                    ComponentRowView::Label { title: human_key(key), depth }
                })
            }
        }),
        value_rows(Json::Object(Seq::empty()), depth).len() == 0,
{
    let members = seq![(key, v)];
    assert(members_rows(members, depth, 0) =~= Seq::<ComponentRowView>::empty());
    let rows = members_rows(members, depth, 1);
    if !is_plain(v) {
        assert(rows.drop_first() =~= value_rows(v, depth + 1));
    }
}

/// Every item of a list takes one row, in their order: a text as it is and anything else
/// as JSON, behind a bullet. A value that stands alone takes one row.
pub proof fn items_are_shown(items: Seq<Json>, depth: nat, i: int)
    requires
        0 <= i < items.len(),
    ensures
        ({
            let rows = value_rows(Json::Array(items), depth);
            &&& rows.len() == items.len()
            &&& rows[i] matches ComponentRowView::Bullet { text, depth: d } && d == depth && text
                == "• "@ + (match items[i] {
                Json::Str(s) => s,
                v => json_text(v),
            })
        }),
        is_plain(items[i]) ==> {
            let alone = value_rows(items[i], depth);
            &&& alone.len() == 1
            &&& alone[0] matches ComponentRowView::Scalar { text, depth: d } && d == depth && shows(
                items[i],
                text,
            )
        },
{
}

/// A label is its key with blanks for underscores and hyphens and a capital in front;
/// every other character stays.
pub proof fn labels_are_their_keys(key: Seq<char>, i: int)
    requires
        0 < i < key.len(),
    ensures
        ({
            let front = char_upper(if key[0] == '_' || key[0] == '-' {
                ' '
            } else {
                key[0]
            });
            let label = human_key(key);
            &&& label.len() == front.len() + key.len() - 1
            &&& label.subrange(0, front.len() as int) == front
            &&& label[front.len() + i - 1] == (if key[i] == '_' || key[i] == '-' {
                ' '
            } else {
                key[i]
            })
        }),
{
    let spaced = replaced(replaced(key, '_', ' '), '-', ' ');
    let front = char_upper(spaced[0]);
    assert(human_key(key).subrange(0, front.len() as int) =~= front);
}

/// A key of one character becomes its capital, and an empty key an empty label.
pub proof fn short_labels(c: char)
    ensures
        c != '_' && c != '-' ==> human_key(seq![c]) == char_upper(c),
        c == '_' || c == '-' ==> human_key(seq![c]) == char_upper(' '),
        human_key(Seq::empty()).len() == 0,
{
    let spaced = replaced(replaced(seq![c], '_', ' '), '-', ' ');
    assert(human_key(seq![c]) =~= char_upper(spaced[0]));
}

// ---------------------------------------------------------------------------
// Finding the JSON
// ---------------------------------------------------------------------------

/// An answer that is JSON as a whole is that value, whatever white space stands around it;
/// one that is not is the value of its first braced part, if that is JSON.
pub proof fn answers_are_read_whole_or_by_their_braces(s: Seq<char>)
    ensures
        match json_decoded(trim(s)) {
            Ok(v) => component_json(s) == Some(v),
            Err(_) => match braced(s) {
                Some(part) => component_json(s) == (match json_decoded(part) {
                    Ok(v) => Some(v),
                    Err(_) => None,
                }),
                None => component_json(s) is None,
            },
        },
{
}

/// How many times `c` stands in `s`.
pub open spec fn count(s: Seq<char>, c: char) -> int
    decreases s.len(),
{
    if s.len() == 0 {
        0
    } else {
        count(s.drop_last(), c) + (if s.last() == c {
            1int
        } else {
            0
        })
    }
}

proof fn closing_balances(s: Seq<char>, start: int, i: int, depth: int)
    requires
        0 <= start <= i <= s.len(),
        !s.contains('"'),
        depth == count(s.subrange(start, i), '{') - count(s.subrange(start, i), '}'),
        i > start ==> depth > 0,
        i == start ==> start < s.len() && s[start] == '{',
        forall|k: int|
            start < k <= i ==> count(#[trigger] s.subrange(start, k), '{') > count(
                s.subrange(start, k),
                '}',
            ),
    ensures
        match closing(s, i, depth, false, false) {
            Some(end) => {
                let part = s.subrange(start, end + 1);
                &&& i <= end < s.len()
                &&& count(part, '{') == count(part, '}')
                &&& forall|k: int|
                    start < k <= end ==> count(#[trigger] s.subrange(start, k), '{') > count(
                        s.subrange(start, k),
                        '}',
                    )
            },
            None => forall|k: int|
                start < k <= s.len() ==> count(#[trigger] s.subrange(start, k), '{') > count(
                    s.subrange(start, k),
                    '}',
                ),
        },
    decreases s.len() - i,
{
    if i < s.len() {
        let c = s[i];
        assert(s.contains(c));
        let now = s.subrange(start, i + 1);
        assert(now.drop_last() =~= s.subrange(start, i));
        assert(now.last() == c);
        if c == '{' {
            closing_balances(s, start, i + 1, depth + 1);
        } else if c == '}' {
            if depth != 1 {
                closing_balances(s, start, i + 1, depth - 1);
            }
        } else {
            closing_balances(s, start, i + 1, depth);
        }
    } else {
        assert(s.subrange(start, s.len() as int) == s.subrange(start, i));
    }
}

/// In a text without quotes the part begins at the first opening brace and ends where
/// for the first time as many braces are closed as opened; there is none where that is
/// never so.
pub proof fn braces_are_balanced(s: Seq<char>)
    requires
        !s.contains('"'),
    ensures
        match braced(s) {
            Some(part) => exists|start: int, end: int|
                {
                    &&& part == #[trigger] s.subrange(start, end + 1)
                    &&& 0 <= start <= end < s.len()
                    &&& !s.take(start).contains('{')
                    &&& s[start] == '{'
                    &&& count(part, '{') == count(part, '}')
                    &&& forall|k: int|
                        start < k <= end ==> count(#[trigger] s.subrange(start, k), '{') > count(
                            s.subrange(start, k),
                            '}',
                        )
                },
            None => s.contains('{') ==> forall|k: int|
                first_of(s, '{')->0 < k <= s.len() ==> count(
                    #[trigger] s.subrange(first_of(s, '{')->0, k),
                    '{',
                ) > count(s.subrange(first_of(s, '{')->0, k), '}'),
        },
{
    first_of_is_first(s, '{');
    if let Some(start) = first_of(s, '{') {
        assert(s.subrange(start, start) =~= Seq::<char>::empty());
        closing_balances(s, start, start, 0);
        let front = s.take(start);
        assert(!front.contains('{')) by {
            if front.contains('{') {
                let k = choose|k: int| 0 <= k < front.len() && front[k] == '{';
                assert(s[k] == '{');
            }
        }
    }
}

/// A quoted text is passed over, whatever braces it holds: the search goes on behind its
/// closing quote.
pub proof fn quoted_texts_are_passed_over(s: Seq<char>, from: int, to: int, depth: int)
    requires
        0 <= from < to < s.len(),
        s[from] == '"',
        s[to] == '"',
        forall|k: int| from < k < to ==> (#[trigger] s[k]) != '"' && s[k] != '\\',
    ensures
        closing(s, from, depth, false, false) == closing(s, to + 1, depth, false, false),
{
    inside_quotes(s, from + 1, to, depth);
}

proof fn inside_quotes(s: Seq<char>, i: int, to: int, depth: int)
    requires
        0 <= i <= to < s.len(),
        s[to] == '"',
        forall|k: int| i <= k < to ==> (#[trigger] s[k]) != '"' && s[k] != '\\',
    ensures
        closing(s, i, depth, true, false) == closing(s, to + 1, depth, false, false),
    decreases to - i,
{
    if i < to {
        inside_quotes(s, i + 1, to, depth);
    }
}

/// A backslash in a quoted text takes the character behind it along, a quote too.
pub proof fn escaped_characters_are_passed_over(s: Seq<char>, i: int, depth: int)
    requires
        0 <= i,
        i + 1 < s.len(),
        s[i] == '\\',
    ensures
        closing(s, i, depth, true, false) == closing(s, i + 2, depth, true, false),
{
    reveal_with_fuel(closing, 3);
}

} // verus!
