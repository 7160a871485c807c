//! Which model servers are deployed.

use crate::error::{Error, ErrorView};
use crate::ir::views;
use crate::text::{
    chars_of, comes_before, decimal, decimal_text, has_prefix, same, signed_decimal, starts_with,
    string_of, text_less, trim, trimmed,
};
use crate::text::{text_order_is_total, text_order_is_transitive};
use vstd::prelude::*;

verus! {

/// One row of the listing of deployed apps.
#[derive(Debug, Clone)]
pub struct ModalAppRow {
    pub description: String,
    pub state: String,
}

/// Is this the row of a deployed server of this project?
pub open spec fn is_deployed(row: ModalAppRow) -> bool {
    row.state@ == "deployed"@ && starts_with(row.description@, "parselab-"@)
}

/// Are the names in order, none of them twice?
pub open spec fn names_ordered(s: Seq<Seq<char>>) -> bool {
    forall|i: int, j: int| 0 <= i < j < s.len() ==> text_less(#[trigger] s[i], #[trigger] s[j])
}

/// Put a name in its place, if it is not there yet.
fn add_name(names: &mut Vec<String>, name: &str)
    requires
        names_ordered(views(old(names)@)),
    ensures
        names_ordered(views(final(names)@)),
        forall|x: Seq<char>| #[trigger]
            views(final(names)@).contains(x) <==> views(old(names)@).contains(x) || x == name@,
{
    let ghost before = views(names@);
    let mut at: usize = names.len();
    while at > 0 && comes_before(name, names[at - 1].as_str())
        invariant
            at <= names@.len(),
            views(names@) == before,
            forall|j: int| at <= j < before.len() ==> text_less(name@, #[trigger] before[j]),
        decreases at,
    {
        at = at - 1;
        assert(before[at as int] == names@[at as int]@);
    }
    if at > 0 && same(name, names[at - 1].as_str()) {
        assert(before[at - 1] == names@[at - 1]@);
        assert(before.contains(name@));
    } else {
        names.insert(at, String::from_str(name));
        proof {
            let after = views(names@);
            assert(after =~= before.insert(at as int, name@));
            if at > 0 {
                text_order_is_total(before[at - 1], name@);
            }
            assert forall|i: int, j: int| 0 <= i < j < after.len() implies text_less(
                #[trigger] after[i],
                #[trigger] after[j],
            ) by {
                if j == at {
                    if i < at - 1 {
                        text_order_is_transitive(before[i], before[at - 1], name@);
                    }
                } else if i != at {
                    let i0 = if i < at {
                        i
                    } else {
                        i - 1
                    };
                    let j0 = if j < at {
                        j
                    } else {
                        j - 1
                    };
                    assert(text_less(before[i0], before[j0]));
                }
            }
            assert forall|x: Seq<char>| #[trigger] after.contains(x) <==> before.contains(x) || x
                == name@ by {
                assert(after[at as int] == name@);
                if before.contains(x) {
                    let k = choose|k: int| 0 <= k < before.len() && before[k] == x;
                    if k < at {
                        assert(after[k] == x);
                    } else {
                        assert(after[k + 1] == x);
                    }
                }
                if after.contains(x) && x != name@ {
                    let k = choose|k: int| 0 <= k < after.len() && after[k] == x;
                    if k < at {
                        assert(before[k] == x);
                    } else {
                        assert(before[k - 1] == x);
                    }
                }
            }
        }
    }
}

/// The names of the deployed servers, each once, in order.
pub fn deployed_workers(rows: &Vec<ModalAppRow>) -> (r: Vec<String>)
    ensures
        forall|name: Seq<char>| #[trigger]
            views(r@).contains(name) <==> exists|i: int|
                0 <= i < rows@.len() && is_deployed(#[trigger] rows@[i]) && rows@[i].description@
                    == name,
        names_ordered(views(r@)),
{
    let mut out: Vec<String> = Vec::new();
    let prefix = chars_of("parselab-");
    for i in 0..rows.len()
        invariant
            prefix@ == "parselab-"@,
            forall|name: Seq<char>| #[trigger]
                views(out@).contains(name) <==> exists|k: int|
                    0 <= k < i && is_deployed(#[trigger] rows@[k]) && rows@[k].description@ == name,
            names_ordered(views(out@)),
    {
        let row = &rows[i];
        let ghost before = views(out@);
        if same(row.state.as_str(), "deployed") && has_prefix(
            &chars_of(row.description.as_str()),
            &prefix,
        ) {
            assert(is_deployed(rows@[i as int]));
            add_name(&mut out, row.description.as_str());
            assert forall|name: Seq<char>| #[trigger] views(out@).contains(name) <==> exists|k: int|
                0 <= k < i + 1 && is_deployed(#[trigger] rows@[k]) && rows@[k].description@
                    == name by {
                assert(views(out@).contains(name) <==> before.contains(name) || name
                    == row.description@);
            }
        }
    }
    out
}

/// Is the server that goes by `name` among the deployed ones?
pub fn is_live(names: &Vec<String>, name: &str) -> (r: bool)
    ensures
        r == views(names@).contains(name@),
{
    for i in 0..names.len()
        invariant
            forall|k: int| 0 <= k < i ==> views(names@)[k] != name@,
    {
        if same(names[i].as_str(), name) {
            assert(views(names@)[i as int] == name@);
            return true;
        }
    }
    false
}

/// What is said at the start about the deployed servers: how to deploy one where
/// there is none, else how many there are, and their names.
pub open spec fn start_lines(names: Seq<Seq<char>>) -> Seq<Seq<char>> {
    if names.len() == 0 {
        seq![
            "no parselab-* Modal apps deployed; prompt-tab dispatches will be disabled. Run `modal deploy` from modal/ to enable."@,
        ]
    } else {
        seq!["deployed parselab workers ("@ + decimal(names.len()) + "):"@] + names.map_values(
            |n: Seq<char>| "  - "@ + n,
        )
    }
}

/// What is said at the start about the deployed servers, line by line.
pub fn startup_lines(names: &Vec<String>) -> (r: Vec<String>)
    ensures
        views(r@) == start_lines(views(names@)),
{
    let mut out: Vec<String> = Vec::new();
    if names.len() == 0 {
        out.push(
            String::from_str(
                "no parselab-* Modal apps deployed; prompt-tab dispatches will be disabled. Run `modal deploy` from modal/ to enable.",
            ),
        );
        assert(views(out@) =~= start_lines(views(names@)));
        return out;
    }
    let ghost all = views(names@).map_values(|n: Seq<char>| "  - "@ + n);
    let head = String::from_str("deployed parselab workers (").concat(
        decimal_text(names.len() as u64).as_str(),
    ).concat("):");
    let ghost first = head@;
    out.push(head);
    assert(views(out@) =~= seq![first] + all.take(0));
    for i in 0..names.len()
        invariant
            all == views(names@).map_values(|n: Seq<char>| "  - "@ + n),
            views(out@) == seq![first] + all.take(i as int),
    {
        assert(views(names@)[i as int] == names@[i as int]@);
        let line = String::from_str("  - ").concat(names[i].as_str());
        assert(all[i as int] == line@);
        let ghost done = views(out@);
        out.push(line);
        assert(views(out@) =~= done.push(line@));
        assert(views(out@) =~= seq![first] + all.take(i + 1));
    }
    assert(all.take(all.len() as int) =~= all);
    out
}

/// The number in decimal, with a sign where it is negative.
fn signed_text(i: i32) -> (r: String)
    ensures
        r@ == signed_decimal(i as int),
{
    if i < 0 {
        let mut out = String::new();
        out.push('-');
        let digits = decimal_text((-(i as i64)) as u64);
        assert(out@ =~= seq!['-']);
        out.concat(digits.as_str())
    } else {
        decimal_text(i as u64)
    }
}

/// What is reported where the listing of deployed apps fails.
pub open spec fn listing_failed(status: Option<i32>, stderr: Seq<char>) -> ErrorView {
    let code = match status {
        Some(c) => c as int,
        None => -1,
    };
    ErrorView::WorkerResponse(
        "modal app list failed (status "@ + signed_decimal(code) + "): "@ + trim(stderr),
    )
}

/// The error for a listing that ended with `status` and wrote `stderr`.
pub fn listing_failure(status: Option<i32>, stderr: &str) -> (r: Error)
    ensures
        r@ == listing_failed(status, stderr@),
{
    let code: i32 = match status {
        Some(c) => c,
        None => -1,
    };
    let why = string_of(&trimmed(&chars_of(stderr)));
    Error::WorkerResponse(
        String::from_str("modal app list failed (status ").concat(
            signed_text(code).as_str(),
        ).concat("): ").concat(why.as_str()),
    )
}

/// The error where the listing tool could not be started.
pub fn spawn_failure(not_found: bool, why: &str) -> (r: Error)
    ensures
        r@ == ErrorView::WorkerResponse(
            if not_found {
                "modal CLI not on PATH; install with `uv tool install modal` or `pip install modal`"@
            } else {
                "spawn modal CLI: "@ + why@
            },
        ),
{
    if not_found {
        Error::WorkerResponse(
            String::from_str(
                "modal CLI not on PATH; install with `uv tool install modal` or `pip install modal`",
            ),
        )
    } else {
        Error::WorkerResponse(String::from_str("spawn modal CLI: ").concat(why))
    }
}

/// The error where the listing does not decode.
pub fn decode_failure(why: &str) -> (r: Error)
    ensures
        r@ == ErrorView::WorkerResponse("parse modal JSON: "@ + why@),
{
    Error::WorkerResponse(String::from_str("parse modal JSON: ").concat(why))
}

} // verus!
