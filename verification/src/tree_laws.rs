//! Which rows the trees show, and in what order, said of the records and the entries.

use crate::ids::{ExtractionId, TocEntryId};
use crate::inspector_model::{
    PaneView, RenderedRow, SelectedRow, block_rows, entry_of, first_child, first_on_page, page_rows,
    pages_rows, record_of, row_offset, row_position, rows, rows_height, run_of, run_rows,
    runs_rows, selectable, selectables, toc_rows,
};
use crate::ir::{ContentView, DocView, ExtractionView, PageExtractionView, TocEntryView, on_page};
use vstd::prelude::*;

verus! {

// ---------------------------------------------------------------------------
// Lookups
// ---------------------------------------------------------------------------

/// A record is looked up by its page, and the first one is found.
pub proof fn the_first_record_is_found(pages: Seq<PageExtractionView>, page: u32)
    ensures
        match first_on_page(pages, page) {
            Some(r) => exists|i: int|
                {
                    &&& 0 <= i < pages.len()
                    &&& #[trigger] pages[i] == r
                    &&& r.page == page
                    &&& forall|j: int| 0 <= j < i ==> (#[trigger] pages[j]).page != page
                },
            None => forall|i: int| 0 <= i < pages.len() ==> (#[trigger] pages[i]).page != page,
        },
    decreases pages.len(),
{
    if pages.len() > 0 {
        let rest = pages.drop_first();
        if pages[0].page == page {
            assert(pages[0] == first_on_page(pages, page)->Some_0);
        } else {
            the_first_record_is_found(rest, page);
            if let Some(r) = first_on_page(rest, page) {
                let i = choose|i: int|
                    {
                        &&& 0 <= i < rest.len()
                        &&& #[trigger] rest[i] == r
                        &&& r.page == page
                        &&& forall|j: int| 0 <= j < i ==> (#[trigger] rest[j]).page != page
                    };
                assert(pages[i + 1] == r);
                assert forall|j: int| 0 <= j < i + 1 implies (#[trigger] pages[j]).page != page by {
                    if j > 0 {
                        assert(rest[j - 1] == pages[j]);
                    }
                }
            } else {
                assert forall|i: int| 0 <= i < pages.len() implies (#[trigger] pages[i]).page
                    != page by {
                    if i > 0 {
                        assert(rest[i - 1] == pages[i]);
                    }
                }
            }
        }
    }
}

/// A record is looked up by its page and its run, and the first one is found.
pub proof fn the_record_of_a_run_is_found(
    pages: Seq<PageExtractionView>,
    page: u32,
    run: ExtractionId,
)
    ensures
        match record_of(pages, page, run) {
            Some(r) => exists|i: int|
                {
                    &&& 0 <= i < pages.len()
                    &&& #[trigger] pages[i] == r
                    &&& r.page == page
                    &&& r.extraction_uuid == run
                    &&& forall|j: int|
                        0 <= j < i ==> !((#[trigger] pages[j]).page == page
                            && pages[j].extraction_uuid == run)
                },
            None => forall|i: int|
                0 <= i < pages.len() ==> !((#[trigger] pages[i]).page == page
                    && pages[i].extraction_uuid == run),
        },
    decreases pages.len(),
{
    if pages.len() > 0 {
        let rest = pages.drop_first();
        if pages[0].page == page && pages[0].extraction_uuid == run {
            assert(pages[0] == record_of(pages, page, run)->Some_0);
        } else {
            the_record_of_a_run_is_found(rest, page, run);
            if let Some(r) = record_of(rest, page, run) {
                let i = choose|i: int|
                    {
                        &&& 0 <= i < rest.len()
                        &&& #[trigger] rest[i] == r
                        &&& r.page == page
                        &&& r.extraction_uuid == run
                        &&& forall|j: int|
                            0 <= j < i ==> !((#[trigger] rest[j]).page == page
                                && rest[j].extraction_uuid == run)
                    };
                assert(pages[i + 1] == r);
                assert forall|j: int| 0 <= j < i + 1 implies !((#[trigger] pages[j]).page == page
                    && pages[j].extraction_uuid == run) by {
                    if j > 0 {
                        assert(rest[j - 1] == pages[j]);
                    }
                }
            } else {
                assert forall|i: int| 0 <= i < pages.len() implies !((#[trigger] pages[i]).page
                    == page && pages[i].extraction_uuid == run) by {
                    if i > 0 {
                        assert(rest[i - 1] == pages[i]);
                    }
                }
            }
        }
    }
}

/// An entry is looked up by its identity, and the first one is found.
pub proof fn the_entry_is_found(toc: Seq<TocEntryView>, id: TocEntryId)
    ensures
        match entry_of(toc, id) {
            Some(e) => exists|i: int|
                {
                    &&& 0 <= i < toc.len()
                    &&& #[trigger] toc[i] == e
                    &&& e.id == id
                    &&& forall|j: int| 0 <= j < i ==> (#[trigger] toc[j]).id != id
                },
            None => forall|i: int| 0 <= i < toc.len() ==> (#[trigger] toc[i]).id != id,
        },
    decreases toc.len(),
{
    if toc.len() > 0 {
        let rest = toc.drop_first();
        if toc[0].id == id {
            assert(toc[0] == entry_of(toc, id)->Some_0);
        } else {
            the_entry_is_found(rest, id);
            if let Some(e) = entry_of(rest, id) {
                let i = choose|i: int|
                    {
                        &&& 0 <= i < rest.len()
                        &&& #[trigger] rest[i] == e
                        &&& e.id == id
                        &&& forall|j: int| 0 <= j < i ==> (#[trigger] rest[j]).id != id
                    };
                assert(toc[i + 1] == e);
                assert forall|j: int| 0 <= j < i + 1 implies (#[trigger] toc[j]).id != id by {
                    if j > 0 {
                        assert(rest[j - 1] == toc[j]);
                    }
                }
            } else {
                assert forall|i: int| 0 <= i < toc.len() implies (#[trigger] toc[i]).id != id by {
                    if i > 0 {
                        assert(rest[i - 1] == toc[i]);
                    }
                }
            }
        }
    }
}

/// The first child of an entry is the first that names it as its parent.
pub proof fn the_first_child_is_found(toc: Seq<TocEntryView>, id: TocEntryId)
    ensures
        match first_child(toc, id) {
            Some(child) => exists|i: int|
                {
                    &&& 0 <= i < toc.len()
                    &&& (#[trigger] toc[i]).id == child
                    &&& toc[i].parent == Some(id)
                    &&& forall|j: int| 0 <= j < i ==> (#[trigger] toc[j]).parent != Some(id)
                },
            None => forall|i: int| 0 <= i < toc.len() ==> (#[trigger] toc[i]).parent != Some(id),
        },
    decreases toc.len(),
{
    if toc.len() > 0 {
        let rest = toc.drop_first();
        if toc[0].parent == Some(id) {
            assert(toc[0].id == first_child(toc, id)->Some_0);
        } else {
            the_first_child_is_found(rest, id);
            if let Some(child) = first_child(rest, id) {
                let i = choose|i: int|
                    {
                        &&& 0 <= i < rest.len()
                        &&& (#[trigger] rest[i]).id == child
                        &&& rest[i].parent == Some(id)
                        &&& forall|j: int| 0 <= j < i ==> (#[trigger] rest[j]).parent != Some(id)
                    };
                assert(toc[i + 1] == rest[i]);
                assert forall|j: int| 0 <= j < i + 1 implies (#[trigger] toc[j]).parent != Some(
                    id,
                ) by {
                    if j > 0 {
                        assert(rest[j - 1] == toc[j]);
                    }
                }
            } else {
                assert forall|i: int| 0 <= i < toc.len() implies (#[trigger] toc[i]).parent != Some(
                    id,
                ) by {
                    if i > 0 {
                        assert(rest[i - 1] == toc[i]);
                    }
                }
            }
        }
    }
}

/// A run is looked up by its identity, and the first one is found.
pub proof fn the_run_is_found(runs: Seq<ExtractionView>, id: ExtractionId)
    ensures
        match run_of(runs, id) {
            Some(e) => exists|i: int|
                {
                    &&& 0 <= i < runs.len()
                    &&& #[trigger] runs[i] == e
                    &&& e.uuid == id
                    &&& forall|j: int| 0 <= j < i ==> (#[trigger] runs[j]).uuid != id
                },
            None => forall|i: int| 0 <= i < runs.len() ==> (#[trigger] runs[i]).uuid != id,
        },
    decreases runs.len(),
{
    if runs.len() > 0 {
        let rest = runs.drop_first();
        if runs[0].uuid == id {
            assert(runs[0] == run_of(runs, id)->Some_0);
        } else {
            the_run_is_found(rest, id);
            if let Some(e) = run_of(rest, id) {
                let i = choose|i: int|
                    {
                        &&& 0 <= i < rest.len()
                        &&& #[trigger] rest[i] == e
                        &&& e.uuid == id
                        &&& forall|j: int| 0 <= j < i ==> (#[trigger] rest[j]).uuid != id
                    };
                assert(runs[i + 1] == e);
                assert forall|j: int| 0 <= j < i + 1 implies (#[trigger] runs[j]).uuid != id by {
                    if j > 0 {
                        assert(rest[j - 1] == runs[j]);
                    }
                }
            } else {
                assert forall|i: int| 0 <= i < runs.len() implies (#[trigger] runs[i]).uuid != id by {
                    if i > 0 {
                        assert(rest[i - 1] == runs[i]);
                    }
                }
            }
        }
    }
}

// ---------------------------------------------------------------------------
// Pages, records and blocks
// ---------------------------------------------------------------------------

/// How many blocks the record has.
pub open spec fn blocks_in(r: PageExtractionView) -> nat {
    match r.content {
        ContentView::Structured(s) => s.blocks.len(),
        _ => 0,
    }
}

/// Is this a row of page `page`? The page has its own row. Where it is open, each of its
/// records has one, or there is one that says that it has none; and where a record is open,
/// each of its blocks has one.
pub open spec fn is_row_of_page(p: PaneView, d: DocView, page: u32, row: RenderedRow) -> bool {
    match row {
        RenderedRow::Page(k) => k == page,
        RenderedRow::EmptyExtractionsStub(k) => {
            &&& k == page
            &&& p.expanded_pages.contains(page)
            &&& forall|i: int|
                0 <= i < d.extracted_pages.len() ==> (#[trigger] d.extracted_pages[i]).page != page
        },
        RenderedRow::Extraction { page: k, run, can_expand } => {
            &&& k == page
            &&& p.expanded_pages.contains(page)
            &&& exists|i: int|
                {
                    &&& 0 <= i < d.extracted_pages.len()
                    &&& (#[trigger] d.extracted_pages[i]).page == page
                    &&& d.extracted_pages[i].extraction_uuid == run
                    &&& can_expand == (blocks_in(d.extracted_pages[i]) > 0)
                }
        },
        RenderedRow::Block(k, run, idx) => {
            &&& k == page
            &&& p.expanded_pages.contains(page)
            &&& p.expanded_runs.contains((page, run))
            &&& exists|i: int|
                {
                    &&& 0 <= i < d.extracted_pages.len()
                    &&& (#[trigger] d.extracted_pages[i]).page == page
                    &&& d.extracted_pages[i].extraction_uuid == run
                    &&& idx < blocks_in(d.extracted_pages[i])
                }
        },
        RenderedRow::Toc { .. } => false,
    }
}

proof fn in_either<T>(a: Seq<T>, b: Seq<T>, x: T)
    ensures
        (a + b).contains(x) <==> a.contains(x) || b.contains(x),
{
    if a.contains(x) {
        let i = choose|i: int| 0 <= i < a.len() && a[i] == x;
        assert((a + b)[i] == x);
    }
    if b.contains(x) {
        let i = choose|i: int| 0 <= i < b.len() && b[i] == x;
        assert((a + b)[a.len() + i] == x);
    }
}

proof fn in_one<T>(a: T, x: T)
    ensures
        seq![a].contains(x) <==> x == a,
{
    assert(seq![a][0] == a);
}

/// Is this a row of the record?
spec fn is_row_of_run(p: PaneView, r: PageExtractionView, row: RenderedRow) -> bool {
    match row {
        RenderedRow::Extraction { page, run, can_expand } => page == r.page && run
            == r.extraction_uuid && can_expand == (blocks_in(r) > 0),
        RenderedRow::Block(page, run, idx) => page == r.page && run == r.extraction_uuid && idx
            < blocks_in(r) && p.expanded_runs.contains((page, run)),
        _ => false,
    }
}

proof fn run_rows_are(p: PaneView, r: PageExtractionView, row: RenderedRow)
    requires
        blocks_in(r) <= usize::MAX,
    ensures
        run_rows(p, r).contains(row) <==> is_row_of_run(p, r, row),
{
    let own = RenderedRow::Extraction {
        page: r.page,
        run: r.extraction_uuid,
        can_expand: blocks_in(r) > 0,
    };
    in_one(own, row);
    let n = blocks_in(r);
    let blocks = block_rows(r.page, r.extraction_uuid, n);
    in_either(seq![own], blocks, row);
    if let RenderedRow::Block(page, run, idx) = row {
        if page == r.page && run == r.extraction_uuid && idx < n {
            assert(blocks[idx as int] == row);
        }
    }
    if blocks.contains(row) {
        let i = choose|i: int| 0 <= i < blocks.len() && blocks[i] == row;
        assert(row == RenderedRow::Block(r.page, r.extraction_uuid, i as usize));
    }
}

proof fn runs_rows_are(p: PaneView, records: Seq<PageExtractionView>, n: nat, row: RenderedRow)
    requires
        n <= records.len(),
        forall|i: int| 0 <= i < records.len() ==> blocks_in(#[trigger] records[i]) <= usize::MAX,
    ensures
        runs_rows(p, records, n).contains(row) <==> exists|i: int|
            0 <= i < n && is_row_of_run(p, #[trigger] records[i], row),
    decreases n,
{
    if n > 0 {
        runs_rows_are(p, records, (n - 1) as nat, row);
        run_rows_are(p, records[n - 1], row);
        in_either(runs_rows(p, records, (n - 1) as nat), run_rows(p, records[n - 1]), row);
    }
}

proof fn records_on_page(pages: Seq<PageExtractionView>, page: u32, r: PageExtractionView)
    ensures
        on_page(pages, page).contains(r) <==> pages.contains(r) && r.page == page,
    decreases pages.len(),
{
    if pages.len() > 0 {
        let init = pages.drop_last();
        records_on_page(init, page, r);
        in_one(pages.last(), r);
        in_either(init, seq![pages.last()], r);
        assert(pages =~= init + seq![pages.last()]);
        let rest = on_page(init, page);
        in_either(rest, seq![pages.last()], r);
        assert(rest.push(pages.last()) =~= rest + seq![pages.last()]);
    }
}

proof fn page_rows_are(p: PaneView, d: DocView, page: u32, row: RenderedRow)
    requires
        forall|i: int|
            0 <= i < d.extracted_pages.len() ==> blocks_in(#[trigger] d.extracted_pages[i])
                <= usize::MAX,
    ensures
        page_rows(p, d, page).contains(row) <==> is_row_of_page(p, d, page, row),
{
    let own = RenderedRow::Page(page);
    let records = on_page(d.extracted_pages, page);
    let pages = d.extracted_pages;
    in_one(own, row);
    in_one(RenderedRow::EmptyExtractionsStub(page), row);
    in_either(seq![own], seq![RenderedRow::EmptyExtractionsStub(page)], row);
    assert forall|i: int| 0 <= i < records.len() implies {
        &&& blocks_in(#[trigger] records[i]) <= usize::MAX
        &&& pages.contains(records[i])
        &&& records[i].page == page
    } by {
        assert(records.contains(records[i]));
        records_on_page(pages, page, records[i]);
        let k = choose|k: int| 0 <= k < pages.len() && pages[k] == records[i];
        assert(blocks_in(pages[k]) <= usize::MAX);
    }
    runs_rows_are(p, records, records.len(), row);
    in_either(seq![own], runs_rows(p, records, records.len()), row);
    assert forall|i: int| 0 <= i < pages.len() && (#[trigger] pages[i]).page == page implies
        records.contains(pages[i]) by {
        assert(pages.contains(pages[i]));
        records_on_page(pages, page, pages[i]);
    }
    // From a record of the document to one of the page, and back.
    if exists|i: int| 0 <= i < records.len() && is_row_of_run(p, #[trigger] records[i], row) {
        let i = choose|i: int| 0 <= i < records.len() && is_row_of_run(p, #[trigger] records[i], row);
        let k = choose|k: int| 0 <= k < pages.len() && pages[k] == records[i];
        assert(pages[k].page == page);
    }
    if is_row_of_page(p, d, page, row) {
        match row {
            RenderedRow::Extraction { run, can_expand, .. } => {
                let k = choose|i: int|
                    {
                        &&& 0 <= i < pages.len()
                        &&& (#[trigger] pages[i]).page == page
                        &&& pages[i].extraction_uuid == run
                        &&& can_expand == (blocks_in(pages[i]) > 0)
                    };
                assert(records.contains(pages[k]));
                let i = choose|i: int| 0 <= i < records.len() && records[i] == pages[k];
                assert(is_row_of_run(p, records[i], row));
            },
            RenderedRow::Block(_, run, idx) => {
                let k = choose|i: int|
                    {
                        &&& 0 <= i < pages.len()
                        &&& (#[trigger] pages[i]).page == page
                        &&& pages[i].extraction_uuid == run
                        &&& idx < blocks_in(pages[i])
                    };
                assert(records.contains(pages[k]));
                let i = choose|i: int| 0 <= i < records.len() && records[i] == pages[k];
                assert(is_row_of_run(p, records[i], row));
            },
            RenderedRow::EmptyExtractionsStub(_) => {
                if records.len() > 0 {
                    let k = choose|k: int| 0 <= k < pages.len() && pages[k] == records[0];
                    assert(pages[k].page == page);
                }
            },
            _ => {},
        }
    }
    if page_rows(p, d, page).contains(row) {
        if let RenderedRow::EmptyExtractionsStub(_) = row {
            assert(records.len() == 0);
            assert forall|i: int| 0 <= i < pages.len() implies (#[trigger] pages[i]).page != page by {
                if pages[i].page == page {
                    assert(records.contains(pages[i]));
                }
            }
        }
    }
}

proof fn pages_rows_are(p: PaneView, d: DocView, n: nat, row: RenderedRow)
    requires
        n <= u32::MAX,
        forall|i: int|
            0 <= i < d.extracted_pages.len() ==> blocks_in(#[trigger] d.extracted_pages[i])
                <= usize::MAX,
    ensures
        pages_rows(p, d, n).contains(row) <==> exists|page: u32|
            page < n && #[trigger] is_row_of_page(p, d, page, row),
    decreases n,
{
    if n > 0 {
        let last = (n - 1) as u32;
        pages_rows_are(p, d, (n - 1) as nat, row);
        page_rows_are(p, d, last, row);
        in_either(pages_rows(p, d, (n - 1) as nat), page_rows(p, d, last), row);
    }
}

/// The tree of the extractions shows the rows of the pages, and no others.
pub proof fn the_tree_shows_every_page(p: PaneView, d: DocView, row: RenderedRow)
    requires
        p.doc == Some(d),
        p.tab is Extractions,
        forall|i: int|
            0 <= i < d.extracted_pages.len() ==> blocks_in(#[trigger] d.extracted_pages[i])
                <= usize::MAX,
    ensures
        rows(p).contains(row) <==> exists|page: u32|
            page < p.page_count && #[trigger] is_row_of_page(p, d, page, row),
{
    pages_rows_are(p, d, p.page_count as nat, row);
}

/// The page that a row belongs to.
pub open spec fn page_of_row(row: RenderedRow) -> int {
    match row {
        RenderedRow::Page(k) => k as int,
        RenderedRow::EmptyExtractionsStub(k) => k as int,
        RenderedRow::Extraction { page, .. } => page as int,
        RenderedRow::Block(k, _, _) => k as int,
        RenderedRow::Toc { .. } => -1,
    }
}

/// Can `row` stand right below `above`? A page comes behind the rows of the page before it,
/// a record behind its page or another record, and a block behind its record or the block
/// before it.
pub open spec fn can_stand_below(above: RenderedRow, row: RenderedRow) -> bool {
    match row {
        RenderedRow::Page(k) => page_of_row(above) == k - 1,
        RenderedRow::EmptyExtractionsStub(k) => above == RenderedRow::Page(k),
        RenderedRow::Extraction { page, .. } => page_of_row(above) == page,
        RenderedRow::Block(k, run, idx) => if idx == 0 {
            above == (RenderedRow::Extraction { page: k, run, can_expand: true })
        } else {
            above == RenderedRow::Block(k, run, (idx - 1) as usize)
        },
        RenderedRow::Toc { .. } => false,
    }
}

/// Does every row of `s` but the first stand where it can?
pub open spec fn well_placed(s: Seq<RenderedRow>) -> bool {
    forall|i: int, j: int|
        0 <= i && j == i + 1 && j < s.len() ==> can_stand_below(#[trigger] s[i], #[trigger] s[j])
}

proof fn placed_one_behind_the_other(a: Seq<RenderedRow>, b: Seq<RenderedRow>)
    requires
        well_placed(a),
        well_placed(b),
        a.len() > 0 && b.len() > 0 ==> can_stand_below(a.last(), b[0]),
    ensures
        well_placed(a + b),
{
    let s = a + b;
    assert forall|i: int, j: int| 0 <= i && j == i + 1 && j < s.len() implies can_stand_below(
        #[trigger] s[i],
        #[trigger] s[j],
    ) by {
        if j < a.len() {
            assert(s[i] == a[i] && s[j] == a[j]);
        } else if i >= a.len() {
            assert(s[i] == b[i - a.len()] && s[j] == b[j - a.len()]);
        } else {
            assert(s[i] == a.last() && s[j] == b[0]);
        }
    }
}

proof fn run_rows_placed(p: PaneView, r: PageExtractionView)
    requires
        blocks_in(r) <= usize::MAX,
    ensures
        well_placed(run_rows(p, r)),
        run_rows(p, r).len() > 0,
        run_rows(p, r)[0] == (RenderedRow::Extraction {
            page: r.page,
            run: r.extraction_uuid,
            can_expand: blocks_in(r) > 0,
        }),
        page_of_row(run_rows(p, r).last()) == r.page,
{
    let s = run_rows(p, r);
    assert forall|i: int, j: int| 0 <= i && j == i + 1 && j < s.len() implies can_stand_below(
        #[trigger] s[i],
        #[trigger] s[j],
    ) by {
        assert(s[j] == RenderedRow::Block(r.page, r.extraction_uuid, (j - 1) as usize));
        if i > 0 {
            assert(s[i] == RenderedRow::Block(r.page, r.extraction_uuid, (i - 1) as usize));
        }
    }
    if s.len() > 1 {
        assert(s.last() == RenderedRow::Block(
            r.page,
            r.extraction_uuid,
            (s.len() - 2) as usize,
        ));
    }
}

proof fn runs_rows_placed(p: PaneView, records: Seq<PageExtractionView>, n: nat, page: u32)
    requires
        n <= records.len(),
        forall|i: int|
            0 <= i < records.len() ==> blocks_in(#[trigger] records[i]) <= usize::MAX
                && records[i].page == page,
    ensures
        well_placed(runs_rows(p, records, n)),
        n > 0 ==> runs_rows(p, records, n).len() > 0,
        n > 0 ==> runs_rows(p, records, n)[0] is Extraction,
        n > 0 ==> page_of_row(runs_rows(p, records, n)[0]) == page,
        n > 0 ==> page_of_row(runs_rows(p, records, n).last()) == page,
    decreases n,
{
    if n > 0 {
        let before = runs_rows(p, records, (n - 1) as nat);
        let own = run_rows(p, records[n - 1]);
        runs_rows_placed(p, records, (n - 1) as nat, page);
        run_rows_placed(p, records[n - 1]);
        placed_one_behind_the_other(before, own);
        assert((before + own).last() == own.last());
        if n == 1 {
            assert(before + own =~= own);
        } else {
            assert((before + own)[0] == before[0]);
        }
    }
}

proof fn page_rows_placed(p: PaneView, d: DocView, page: u32)
    requires
        forall|i: int|
            0 <= i < d.extracted_pages.len() ==> blocks_in(#[trigger] d.extracted_pages[i])
                <= usize::MAX,
    ensures
        well_placed(page_rows(p, d, page)),
        page_rows(p, d, page).len() > 0,
        page_rows(p, d, page)[0] == RenderedRow::Page(page),
        page_of_row(page_rows(p, d, page).last()) == page,
{
    let pages = d.extracted_pages;
    let records = on_page(pages, page);
    let head = seq![RenderedRow::Page(page)];
    assert(well_placed(head));
    if p.expanded_pages.contains(page) {
        if records.len() == 0 {
            let stub = seq![RenderedRow::EmptyExtractionsStub(page)];
            assert(well_placed(stub));
            placed_one_behind_the_other(head, stub);
        } else {
            assert forall|i: int| 0 <= i < records.len() implies blocks_in(#[trigger] records[i])
                <= usize::MAX && records[i].page == page by {
                assert(records.contains(records[i]));
                records_on_page(pages, page, records[i]);
                let k = choose|k: int| 0 <= k < pages.len() && pages[k] == records[i];
                assert(blocks_in(pages[k]) <= usize::MAX);
            }
            let below = runs_rows(p, records, records.len());
            runs_rows_placed(p, records, records.len(), page);
            placed_one_behind_the_other(head, below);
            assert((head + below).last() == below.last());
        }
    }
}

proof fn pages_rows_placed(p: PaneView, d: DocView, n: nat)
    requires
        n <= u32::MAX,
        forall|i: int|
            0 <= i < d.extracted_pages.len() ==> blocks_in(#[trigger] d.extracted_pages[i])
                <= usize::MAX,
    ensures
        well_placed(pages_rows(p, d, n)),
        n > 0 ==> pages_rows(p, d, n).len() > 0,
        n > 0 ==> pages_rows(p, d, n)[0] == RenderedRow::Page(0),
        n > 0 ==> page_of_row(pages_rows(p, d, n).last()) == n - 1,
    decreases n,
{
    if n > 0 {
        let before = pages_rows(p, d, (n - 1) as nat);
        let own = page_rows(p, d, (n - 1) as u32);
        pages_rows_placed(p, d, (n - 1) as nat);
        page_rows_placed(p, d, (n - 1) as u32);
        placed_one_behind_the_other(before, own);
        assert((before + own).last() == own.last());
        if n == 1 {
            assert(before + own =~= own);
        } else {
            assert((before + own)[0] == before[0]);
        }
    }
}

/// The rows of the tree begin with the first page, and every other row stands where it can.
pub proof fn the_tree_is_in_order(p: PaneView, d: DocView)
    requires
        p.doc == Some(d),
        p.tab is Extractions,
        forall|i: int|
            0 <= i < d.extracted_pages.len() ==> blocks_in(#[trigger] d.extracted_pages[i])
                <= usize::MAX,
    ensures
        well_placed(rows(p)),
        p.page_count > 0 ==> rows(p).len() > 0 && rows(p)[0] == RenderedRow::Page(0),
        p.page_count == 0 ==> rows(p).len() == 0,
{
    pages_rows_placed(p, d, p.page_count as nat);
}

/// The rows of the records among the rows.
pub open spec fn record_rows(page: u32) -> spec_fn(RenderedRow) -> bool {
    |row: RenderedRow| row is Extraction && page_of_row(row) == page
}

proof fn no_record_rows(s: Seq<RenderedRow>, page: u32)
    requires
        forall|i: int|
            0 <= i < s.len() ==> !(#[trigger] s[i] is Extraction && page_of_row(s[i]) == page),
    ensures
        s.filter(record_rows(page)).len() == 0,
    decreases s.len(),
{
    reveal(Seq::filter);
    if s.len() > 0 {
        let init = s.drop_last();
        assert forall|i: int| 0 <= i < init.len() implies !(#[trigger] init[i] is Extraction
            && page_of_row(init[i]) == page) by {
            assert(init[i] == s[i]);
        }
        no_record_rows(init, page);
        assert(s.last() == s[s.len() - 1]);
    }
}

proof fn record_rows_of_runs(p: PaneView, records: Seq<PageExtractionView>, n: nat, page: u32)
    requires
        n <= records.len(),
        forall|i: int| 0 <= i < records.len() ==> (#[trigger] records[i]).page == page,
    ensures
        ({
            let own = runs_rows(p, records, n).filter(record_rows(page));
            &&& own.len() == n
            &&& forall|i: int|
                0 <= i < n ==> #[trigger] own[i] == (RenderedRow::Extraction {
                    page,
                    run: records[i].extraction_uuid,
                    can_expand: blocks_in(records[i]) > 0,
                })
        }),
    decreases n,
{
    reveal(Seq::filter);
    if n > 0 {
        record_rows_of_runs(p, records, (n - 1) as nat, page);
        let before = runs_rows(p, records, (n - 1) as nat);
        let r = records[n - 1];
        let mine = run_rows(p, r);
        let head = RenderedRow::Extraction {
            page,
            run: r.extraction_uuid,
            can_expand: blocks_in(r) > 0,
        };
        let blocks = mine.skip(1);
        assert(mine =~= seq![head] + blocks);
        assert forall|i: int| 0 <= i < blocks.len() implies !(#[trigger] blocks[i] is Extraction
            && page_of_row(blocks[i]) == page) by {
            assert(blocks[i] == mine[i + 1]);
        }
        no_record_rows(blocks, page);
        Seq::filter_distributes_over_add(seq![head], blocks, record_rows(page));
        Seq::filter_distributes_over_add(before, mine, record_rows(page));
        let one = seq![head];
        assert(one.drop_last().filter(record_rows(page)).len() == 0) by {
            assert(one.drop_last() =~= Seq::empty());
        }
        assert(one.filter(record_rows(page)) =~= one);
        assert(mine.filter(record_rows(page)) =~= one);
    }
}

proof fn record_rows_of_pages(p: PaneView, d: DocView, n: nat, page: u32)
    requires
        n <= u32::MAX,
        forall|i: int|
            0 <= i < d.extracted_pages.len() ==> blocks_in(#[trigger] d.extracted_pages[i])
                <= usize::MAX,
    ensures
        pages_rows(p, d, n).filter(record_rows(page)) == (if page < n && p.expanded_pages.contains(
            page,
        ) {
            runs_rows(p, on_page(d.extracted_pages, page), on_page(d.extracted_pages, page).len()).filter(
                record_rows(page),
            )
        } else {
            Seq::empty()
        }),
    decreases n,
{
    reveal(Seq::filter);
    let records = on_page(d.extracted_pages, page);
    let below = runs_rows(p, records, records.len());
    if n > 0 {
        record_rows_of_pages(p, d, (n - 1) as nat, page);
        let before = pages_rows(p, d, (n - 1) as nat);
        let this = (n - 1) as u32;
        let mine = page_rows(p, d, this);
        Seq::filter_distributes_over_add(before, mine, record_rows(page));
        if this != page {
            assert forall|i: int| 0 <= i < mine.len() implies !(#[trigger] mine[i] is Extraction
                && page_of_row(mine[i]) == page) by {
                assert(mine.contains(mine[i]));
                page_rows_are(p, d, this, mine[i]);
            }
            no_record_rows(mine, page);
        } else {
            let head = seq![RenderedRow::Page(page)];
            no_record_rows(head, page);
            if !p.expanded_pages.contains(page) {
                assert(mine == head);
            } else if records.len() == 0 {
                let stub = seq![RenderedRow::EmptyExtractionsStub(page)];
                no_record_rows(stub, page);
                Seq::filter_distributes_over_add(head, stub, record_rows(page));
                assert(below =~= Seq::empty());
            } else {
                Seq::filter_distributes_over_add(head, below, record_rows(page));
            }
        }
        assert(pages_rows(p, d, n).filter(record_rows(page)) =~= (if page < n
            && p.expanded_pages.contains(page) {
            below.filter(record_rows(page))
        } else {
            Seq::empty()
        }));
    }
}

/// Each record of an open page has one row, in document order.
pub proof fn every_record_has_one_row(p: PaneView, d: DocView, page: u32)
    requires
        p.doc == Some(d),
        p.tab is Extractions,
        page < p.page_count,
        p.expanded_pages.contains(page),
        forall|i: int|
            0 <= i < d.extracted_pages.len() ==> blocks_in(#[trigger] d.extracted_pages[i])
                <= usize::MAX,
    ensures
        ({
            let mine = d.extracted_pages.filter(crate::doc_laws::of_that_page(page));
            let own = rows(p).filter(record_rows(page));
            &&& own.len() == mine.len()
            &&& forall|i: int|
                0 <= i < mine.len() ==> #[trigger] own[i] == (RenderedRow::Extraction {
                    page,
                    run: mine[i].extraction_uuid,
                    can_expand: blocks_in(mine[i]) > 0,
                })
        }),
{
    let records = on_page(d.extracted_pages, page);
    crate::doc_laws::every_record_of_the_page_is_found(d.extracted_pages, page);
    assert forall|i: int| 0 <= i < records.len() implies (#[trigger] records[i]).page == page by {
        assert(records.contains(records[i]));
        records_on_page(d.extracted_pages, page, records[i]);
    }
    record_rows_of_runs(p, records, records.len(), page);
    record_rows_of_pages(p, d, p.page_count as nat, page);
}

// ---------------------------------------------------------------------------
// Entries
// ---------------------------------------------------------------------------

/// The depth of a row of the table of contents.
pub open spec fn depth_of(row: RenderedRow) -> int {
    match row {
        RenderedRow::Toc { depth, .. } => depth as int,
        _ => -1,
    }
}

/// The entry of a row of the table of contents.
pub open spec fn entry_of_row(row: RenderedRow) -> Option<TocEntryId> {
    match row {
        RenderedRow::Toc { id, .. } => Some(id),
        _ => None,
    }
}

/// Is `row` the row of the entry?
pub open spec fn is_row_of_entry(toc: Seq<TocEntryView>, e: TocEntryView, row: RenderedRow) -> bool {
    row matches RenderedRow::Toc { id, has_children, .. } && id == e.id && (has_children <==> exists|
        i: int,
    |
        0 <= i < toc.len() && (#[trigger] toc[i]).parent == Some(e.id))
}

/// Is row `i` one of an entry at the top, or right below the row of its parent, which is
/// open, with nothing but what stands below that parent in between?
pub open spec fn hangs_below_its_parent(
    toc: Seq<TocEntryView>,
    open: Set<TocEntryId>,
    s: Seq<RenderedRow>,
    top: Option<TocEntryId>,
    depth: int,
    i: int,
) -> bool {
    exists|k: int|
        {
            &&& 0 <= k < toc.len()
            &&& is_row_of_entry(toc, #[trigger] toc[k], s[i])
            &&& if depth_of(s[i]) == depth {
                toc[k].parent == top
            } else {
                exists|j: int|
                    {
                        &&& 0 <= j < i
                        &&& depth_of(#[trigger] s[j]) == depth_of(s[i]) - 1
                        &&& entry_of_row(s[j]) == toc[k].parent
                        &&& toc[k].parent is Some
                        &&& open.contains(toc[k].parent->Some_0)
                        &&& forall|m: int|
                            j < m < i ==> depth_of(#[trigger] s[m]) >= depth_of(s[i])
                    }
            }
        }
}

proof fn toc_rows_hang_below(
    toc: Seq<TocEntryView>,
    open: Set<TocEntryId>,
    parent: Option<TocEntryId>,
    depth: int,
    n: nat,
)
    requires
        n <= toc.len(),
        depth >= 0,
    ensures
        forall|i: int|
            0 <= i < toc_rows(toc, open, parent, depth, n).len() ==> depth_of(
                #[trigger] toc_rows(toc, open, parent, depth, n)[i],
            ) >= depth && hangs_below_its_parent(
                toc,
                open,
                toc_rows(toc, open, parent, depth, n),
                parent,
                depth,
                i,
            ),
    decreases 256 - depth, n,
{
    if n == 0 || depth > 255 {
    } else {
        let rest = toc_rows(toc, open, parent, depth, (n - 1) as nat);
        toc_rows_hang_below(toc, open, parent, depth, (n - 1) as nat);
        let e = toc[n - 1];
        if e.parent == parent {
            let s = toc_rows(toc, open, parent, depth, n);
            let has = crate::inspector_model::has_children(toc, e.id);
            let row = RenderedRow::Toc { id: e.id, depth: depth as u8, has_children: has };
            let inside = crate::inspector_model::is_open(toc, open, e.id);
            let below = if inside {
                toc_rows(toc, open, Some(e.id), depth + 1, toc.len())
            } else {
                Seq::empty()
            };
            if inside {
                toc_rows_hang_below(toc, open, Some(e.id), depth + 1, toc.len());
            }
            assert(s == rest.push(row) + below);
            let at = rest.len() as int;
            assert(s[at] == row);
            assert(is_row_of_entry(toc, e, row));
            assert forall|i: int| 0 <= i < s.len() implies depth_of(#[trigger] s[i]) >= depth
                && hangs_below_its_parent(toc, open, s, parent, depth, i) by {
                if i < at {
                    assert(s[i] == rest[i]);
                    assert(hangs_below_its_parent(toc, open, rest, parent, depth, i));
                    front_hangs_below(toc, open, rest, s, parent, depth, i);
                } else if i == at {
                    assert(is_row_of_entry(toc, toc[n - 1], s[i]));
                } else {
                    let b = i - at - 1;
                    assert(s[i] == below[b]);
                    assert(depth_of(below[b]) >= depth + 1);
                    assert(hangs_below_its_parent(toc, open, below, Some(e.id), depth + 1, b));
                    let k = choose|k: int|
                        {
                            &&& 0 <= k < toc.len()
                            &&& is_row_of_entry(toc, #[trigger] toc[k], below[b])
                            &&& if depth_of(below[b]) == depth + 1 {
                                toc[k].parent == Some(e.id)
                            } else {
                                exists|j: int|
                                    {
                                        &&& 0 <= j < b
                                        &&& depth_of(#[trigger] below[j]) == depth_of(below[b]) - 1
                                        &&& entry_of_row(below[j]) == toc[k].parent
                                        &&& toc[k].parent is Some
                                        &&& open.contains(toc[k].parent->Some_0)
                                        &&& forall|m: int|
                                            j < m < b ==> depth_of(#[trigger] below[m])
                                                >= depth_of(below[b])
                                    }
                            }
                        };
                    assert(is_row_of_entry(toc, toc[k], s[i]));
                    if depth_of(s[i]) == depth + 1 {
                        assert(depth_of(s[at]) == depth_of(s[i]) - 1);
                        assert(entry_of_row(s[at]) == toc[k].parent);
                        assert forall|m: int| at < m < i implies depth_of(#[trigger] s[m])
                            >= depth_of(s[i]) by {
                            assert(s[m] == below[m - at - 1]);
                        }
                    } else {
                        let j = choose|j: int|
                            {
                                &&& 0 <= j < b
                                &&& depth_of(#[trigger] below[j]) == depth_of(below[b]) - 1
                                &&& entry_of_row(below[j]) == toc[k].parent
                                &&& toc[k].parent is Some
                                &&& open.contains(toc[k].parent->Some_0)
                                &&& forall|m: int|
                                    j < m < b ==> depth_of(#[trigger] below[m]) >= depth_of(
                                        below[b],
                                    )
                            };
                        assert(s[at + 1 + j] == below[j]);
                        assert forall|m: int| at + 1 + j < m < i implies depth_of(#[trigger] s[m])
                            >= depth_of(s[i]) by {
                            assert(s[m] == below[m - at - 1]);
                        }
                    }
                }
            }
        }
    }
}

proof fn front_hangs_below(
    toc: Seq<TocEntryView>,
    open: Set<TocEntryId>,
    front: Seq<RenderedRow>,
    s: Seq<RenderedRow>,
    top: Option<TocEntryId>,
    depth: int,
    i: int,
)
    requires
        front.len() <= s.len(),
        forall|j: int| 0 <= j < front.len() ==> #[trigger] s[j] == front[j],
        0 <= i < front.len(),
        hangs_below_its_parent(toc, open, front, top, depth, i),
    ensures
        hangs_below_its_parent(toc, open, s, top, depth, i),
{
    assert(s[i] == front[i]);
    let k = choose|k: int|
        {
            &&& 0 <= k < toc.len()
            &&& is_row_of_entry(toc, #[trigger] toc[k], front[i])
            &&& if depth_of(front[i]) == depth {
                toc[k].parent == top
            } else {
                exists|j: int|
                    {
                        &&& 0 <= j < i
                        &&& depth_of(#[trigger] front[j]) == depth_of(front[i]) - 1
                        &&& entry_of_row(front[j]) == toc[k].parent
                        &&& toc[k].parent is Some
                        &&& open.contains(toc[k].parent->Some_0)
                        &&& forall|m: int|
                            j < m < i ==> depth_of(#[trigger] front[m]) >= depth_of(front[i])
                    }
            }
        };
    assert(is_row_of_entry(toc, toc[k], s[i]));
    if depth_of(front[i]) != depth {
        let j = choose|j: int|
            {
                &&& 0 <= j < i
                &&& depth_of(#[trigger] front[j]) == depth_of(front[i]) - 1
                &&& entry_of_row(front[j]) == toc[k].parent
                &&& toc[k].parent is Some
                &&& open.contains(toc[k].parent->Some_0)
                &&& forall|m: int| j < m < i ==> depth_of(#[trigger] front[m]) >= depth_of(front[i])
            };
        assert(s[j] == front[j]);
        assert forall|m: int| j < m < i implies depth_of(#[trigger] s[m]) >= depth_of(s[i]) by {
            assert(s[m] == front[m]);
        }
    }
}

/// Every row of the table of contents is one of an entry: of one without a parent at the
/// top, or of one whose parent is open and has the nearest row above of a smaller depth.
pub proof fn entries_hang_below_their_parents(p: PaneView, d: DocView, i: int)
    requires
        p.doc == Some(d),
        p.tab is Toc,
        0 <= i < rows(p).len(),
    ensures
        hangs_below_its_parent(d.toc, p.expanded_toc, rows(p), None, 0, i),
{
    toc_rows_hang_below(d.toc, p.expanded_toc, None, 0, d.toc.len());
}

/// Has the entry a row of this depth?
pub open spec fn has_row(s: Seq<RenderedRow>, id: TocEntryId, depth: int) -> bool {
    exists|i: int|
        0 <= i < s.len() && depth_of(#[trigger] s[i]) == depth && entry_of_row(s[i]) == Some(id)
}

proof fn children_have_rows(
    toc: Seq<TocEntryView>,
    open: Set<TocEntryId>,
    parent: Option<TocEntryId>,
    depth: int,
    n: nat,
    k: int,
)
    requires
        0 <= k < n <= toc.len(),
        0 <= depth <= 255,
        toc[k].parent == parent,
    ensures
        has_row(toc_rows(toc, open, parent, depth, n), toc[k].id, depth),
    decreases n,
{
    let s = toc_rows(toc, open, parent, depth, n);
    let rest = toc_rows(toc, open, parent, depth, (n - 1) as nat);
    if k == n - 1 {
        assert(depth_of(s[rest.len() as int]) == depth);
        assert(entry_of_row(s[rest.len() as int]) == Some(toc[k].id));
    } else {
        children_have_rows(toc, open, parent, depth, (n - 1) as nat, k);
        let i = choose|i: int|
            0 <= i < rest.len() && depth_of(#[trigger] rest[i]) == depth && entry_of_row(rest[i])
                == Some(toc[k].id);
        assert(s[i] == rest[i]);
    }
}

proof fn open_entries_show_children(
    toc: Seq<TocEntryView>,
    open: Set<TocEntryId>,
    parent: Option<TocEntryId>,
    depth: int,
    n: nat,
    id: TocEntryId,
    at: int,
    k: int,
)
    requires
        n <= toc.len(),
        0 <= depth <= at < 255,
        0 <= k < toc.len(),
        toc[k].parent == Some(id),
        open.contains(id),
        has_row(toc_rows(toc, open, parent, depth, n), id, at),
    ensures
        has_row(toc_rows(toc, open, parent, depth, n), toc[k].id, at + 1),
    decreases 256 - depth, n,
{
    let s = toc_rows(toc, open, parent, depth, n);
    let i = choose|i: int|
        0 <= i < s.len() && depth_of(#[trigger] s[i]) == at && entry_of_row(s[i]) == Some(id);
    if n > 0 {
        let rest = toc_rows(toc, open, parent, depth, (n - 1) as nat);
        let e = toc[n - 1];
        if e.parent != parent {
            open_entries_show_children(toc, open, parent, depth, (n - 1) as nat, id, at, k);
        } else {
            let inside = crate::inspector_model::is_open(toc, open, e.id);
            let below = if inside {
                toc_rows(toc, open, Some(e.id), depth + 1, toc.len())
            } else {
                Seq::empty()
            };
            let top = rest.len() as int;
            if i < top {
                assert(rest[i] == s[i]);
                open_entries_show_children(toc, open, parent, depth, (n - 1) as nat, id, at, k);
                let j = choose|j: int|
                    0 <= j < rest.len() && depth_of(#[trigger] rest[j]) == at + 1 && entry_of_row(
                        rest[j],
                    ) == Some(toc[k].id);
                assert(s[j] == rest[j]);
            } else {
                if i == top {
                    assert(e.id == id);
                    assert(crate::inspector_model::has_children(toc, id));
                    children_have_rows(toc, open, Some(e.id), depth + 1, toc.len(), k);
                } else {
                    assert(below[i - top - 1] == s[i]);
                    toc_rows_hang_below(toc, open, Some(e.id), depth + 1, toc.len());
                    assert(depth_of(below[i - top - 1]) >= depth + 1);
                    open_entries_show_children(
                        toc,
                        open,
                        Some(e.id),
                        depth + 1,
                        toc.len(),
                        id,
                        at,
                        k,
                    );
                }
                let j = choose|j: int|
                    0 <= j < below.len() && depth_of(#[trigger] below[j]) == at + 1
                        && entry_of_row(below[j]) == Some(toc[k].id);
                assert(s[top + 1 + j] == below[j]);
            }
        }
    }
}

/// Every entry without a parent has a row at the top, and every entry whose parent is open
/// and shown has one right below it.
pub proof fn every_entry_in_reach_is_shown(p: PaneView, d: DocView, k: int, depth: int)
    requires
        p.doc == Some(d),
        p.tab is Toc,
        0 <= k < d.toc.len(),
        0 <= depth < 255,
    ensures
        d.toc[k].parent is None ==> has_row(rows(p), d.toc[k].id, 0),
        d.toc[k].parent matches Some(id) && p.expanded_toc.contains(id) && has_row(
            rows(p),
            id,
            depth,
        ) ==> has_row(rows(p), d.toc[k].id, depth + 1),
{
    let toc = d.toc;
    if let Some(id) = toc[k].parent {
        if p.expanded_toc.contains(id) && has_row(rows(p), id, depth) {
            open_entries_show_children(toc, p.expanded_toc, None, 0, toc.len(), id, depth, k);
        }
    } else {
        children_have_rows(toc, p.expanded_toc, None, 0, toc.len(), k);
    }
}

/// Without a document, and on the other tabs, there are no rows.
pub proof fn other_tabs_have_no_rows(p: PaneView)
    ensures
        p.doc is None || p.tab is Prompt || p.tab is Components ==> rows(p).len() == 0,
{
}

// ---------------------------------------------------------------------------
// Rows to select
// ---------------------------------------------------------------------------

/// The rows that are not the one that says that there are none.
pub open spec fn no_stub() -> spec_fn(RenderedRow) -> bool {
    |row: RenderedRow| !(row is EmptyExtractionsStub)
}

/// Does the selection stand for the row?
pub open spec fn stands_for(sel: SelectedRow, row: RenderedRow) -> bool {
    match row {
        RenderedRow::Page(page) => sel == SelectedRow::Page(page),
        RenderedRow::EmptyExtractionsStub(_) => false,
        RenderedRow::Extraction { page, run, .. } => sel == SelectedRow::Extraction(page, run),
        RenderedRow::Block(page, run, idx) => sel == SelectedRow::Block(page, run, idx),
        RenderedRow::Toc { id, .. } => sel == SelectedRow::Toc(id),
    }
}

/// Every row can be selected but the one that says that there are none.
pub proof fn every_row_can_be_selected(s: Seq<RenderedRow>)
    ensures
        ({
            let mine = s.filter(no_stub());
            &&& selectables(s).len() == mine.len()
            &&& forall|i: int|
                0 <= i < mine.len() ==> stands_for(#[trigger] selectables(s)[i], mine[i])
        }),
    decreases s.len(),
{
    reveal(Seq::filter);
    if s.len() > 0 {
        let init = s.drop_last();
        every_row_can_be_selected(init);
        let mine = s.filter(no_stub());
        let before = init.filter(no_stub());
        assert forall|i: int| 0 <= i < mine.len() implies stands_for(
            #[trigger] selectables(s)[i],
            mine[i],
        ) by {
            if i < before.len() {
                assert(mine[i] == before[i]);
                assert(selectables(s)[i] == selectables(init)[i]);
            } else {
                assert(mine[i] == s.last());
            }
        }
    }
}

proof fn positions_are_first(s: Seq<RenderedRow>, target: SelectedRow, from: nat)
    ensures
        match row_position(s, target, from) {
            Some(i) => from <= i < s.len() && stands_for(target, s[i as int]) && forall|j: int|
                from <= j < i ==> !stands_for(target, #[trigger] s[j]),
            None => forall|j: int| from <= j < s.len() ==> !stands_for(target, #[trigger] s[j]),
        },
    decreases s.len() - from,
{
    if from < s.len() {
        let row = s[from as int];
        assert(stands_for(target, row) <==> selectable(row) == Some(target));
        if !stands_for(target, row) {
            positions_are_first(s, target, from + 1);
        }
    }
}

/// A row stands below all rows above it, and its height is that of its kind.
pub proof fn rows_stand_below_each_other(above: Seq<RenderedRow>, row: RenderedRow, below: Seq<RenderedRow>, sel: SelectedRow)
    requires
        stands_for(sel, row),
        forall|i: int| 0 <= i < above.len() ==> !stands_for(sel, #[trigger] above[i]),
    ensures
        row_offset(above.push(row) + below, sel) == Some(
            (
                rows_height(above, above.len()),
                match row {
                    RenderedRow::Page(_) => 22nat,
                    RenderedRow::EmptyExtractionsStub(_) => 20nat,
                    RenderedRow::Extraction { .. } => 20nat,
                    RenderedRow::Block(_, _, _) => 18nat,
                    RenderedRow::Toc { .. } => 22nat,
                },
            ),
        ),
{
    let s = above.push(row) + below;
    positions_are_first(s, sel, 0);
    let n = above.len();
    assert(s[n as int] == row);
    match row_position(s, sel, 0) {
        Some(i) => {
            if i < n {
                assert(s[i as int] == above[i as int]);
            }
            assert(i == n);
        },
        None => {},
    }
    heights_of_the_front(above, s, n);
}

/// The height of rows is the sum of their heights.
pub proof fn heights_are_summed_up(s: Seq<RenderedRow>, row: RenderedRow)
    ensures
        rows_height(Seq::empty(), 0) == 0,
        rows_height(s.push(row), s.len() + 1) == rows_height(s, s.len()) + (match row {
            RenderedRow::Page(_) => 22nat,
            RenderedRow::EmptyExtractionsStub(_) => 20nat,
            RenderedRow::Extraction { .. } => 20nat,
            RenderedRow::Block(_, _, _) => 18nat,
            RenderedRow::Toc { .. } => 22nat,
        }),
{
    heights_of_the_front(s, s.push(row), s.len());
    assert(s.push(row)[s.len() as int] == row);
}

proof fn heights_of_the_front(front: Seq<RenderedRow>, s: Seq<RenderedRow>, n: nat)
    requires
        n <= front.len() <= s.len(),
        forall|i: int| 0 <= i < front.len() ==> #[trigger] s[i] == front[i],
    ensures
        rows_height(s, n) == rows_height(front, n),
    decreases n,
{
    if n > 0 {
        heights_of_the_front(front, s, (n - 1) as nat);
        assert(s[n - 1] == front[n - 1]);
    }
}

/// What is not among the rows has no place.
pub proof fn missing_rows_have_no_place(s: Seq<RenderedRow>, sel: SelectedRow)
    requires
        forall|i: int| 0 <= i < s.len() ==> !stands_for(sel, #[trigger] s[i]),
    ensures
        row_offset(s, sel) is None,
{
    positions_are_first(s, sel, 0);
}

} // verus!
