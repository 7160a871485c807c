//! Looking up what the inspector shows, and laying out its rows.

use crate::ids::{ExtractionId, TocEntryId};
use crate::inspector_model::{
    PaneView, RenderedRow, SelectedRow, block_at, block_rows, blocks_of, can_expand, candidates,
    entry_of, first_child, first_on_page, has_children, is_open, page_rows, pages_rows, record_of,
    row_height, row_position, rows_height, run_blocks, run_of, run_rows, runs_rows, selectable,
    selectables, toc_fits, toc_rows,
};
use crate::ir::{
    BBox, BBoxView, Content, Doc, Extraction, PageExtraction, StructuredBlock, TocEntry,
    TocEntryView, on_page, views,
};
use crate::kinds::RunSet;
use std::collections::HashSet;
use vstd::prelude::*;

verus! {

broadcast use vstd::std_specs::hash::group_hash_axioms;

// ---------------------------------------------------------------------------
// Lookups
// ---------------------------------------------------------------------------

/// The first record of page `page`.
pub fn find_on_page<'a>(pages: &'a Vec<PageExtraction>, page: u32) -> (r: Option<&'a PageExtraction>)
    ensures
        match r {
            Some(p) => first_on_page(views(pages@), page) == Some(p@),
            None => first_on_page(views(pages@), page) is None,
        },
{
    let ghost all = views(pages@);
    assert(all.skip(0) =~= all);
    for i in 0..pages.len()
        invariant
            all == views(pages@),
            first_on_page(all, page) == first_on_page(all.skip(i as int), page),
    {
        assert(all.skip(i as int).drop_first() =~= all.skip(i + 1));
        assert(all.skip(i as int)[0] == pages@[i as int]@);
        if pages[i].page == page {
            return Some(&pages[i]);
        }
    }
    None
}

/// The first record of page `page` from run `run`.
pub fn find_record<'a>(pages: &'a Vec<PageExtraction>, page: u32, run: ExtractionId) -> (r: Option<
    &'a PageExtraction,
>)
    ensures
        match r {
            Some(p) => record_of(views(pages@), page, run) == Some(p@),
            None => record_of(views(pages@), page, run) is None,
        },
{
    let ghost all = views(pages@);
    assert(all.skip(0) =~= all);
    for i in 0..pages.len()
        invariant
            all == views(pages@),
            record_of(all, page, run) == record_of(all.skip(i as int), page, run),
    {
        assert(all.skip(i as int).drop_first() =~= all.skip(i + 1));
        assert(all.skip(i as int)[0] == pages@[i as int]@);
        if pages[i].page == page && pages[i].extraction_uuid == run {
            return Some(&pages[i]);
        }
    }
    None
}

/// The first entry with this identity.
pub fn find_entry<'a>(toc: &'a Vec<TocEntry>, id: TocEntryId) -> (r: Option<&'a TocEntry>)
    ensures
        match r {
            Some(e) => entry_of(views(toc@), id) == Some(e@),
            None => entry_of(views(toc@), id) is None,
        },
{
    let ghost all = views(toc@);
    assert(all.skip(0) =~= all);
    for i in 0..toc.len()
        invariant
            all == views(toc@),
            entry_of(all, id) == entry_of(all.skip(i as int), id),
    {
        assert(all.skip(i as int).drop_first() =~= all.skip(i + 1));
        assert(all.skip(i as int)[0] == toc@[i as int]@);
        if toc[i].id == id {
            return Some(&toc[i]);
        }
    }
    None
}

/// The first entry right below `parent`.
pub fn find_child(toc: &Vec<TocEntry>, parent: TocEntryId) -> (r: Option<TocEntryId>)
    ensures
        r == first_child(views(toc@), parent),
{
    let ghost all = views(toc@);
    assert(all.skip(0) =~= all);
    for i in 0..toc.len()
        invariant
            all == views(toc@),
            first_child(all, parent) == first_child(all.skip(i as int), parent),
    {
        assert(all.skip(i as int).drop_first() =~= all.skip(i + 1));
        assert(all.skip(i as int)[0] == toc@[i as int]@);
        if let Some(p) = toc[i].parent {
            if p == parent {
                return Some(toc[i].id);
            }
        }
    }
    None
}

/// The first run with this identity.
pub fn find_run<'a>(runs: &'a Vec<Extraction>, uuid: ExtractionId) -> (r: Option<&'a Extraction>)
    ensures
        match r {
            Some(e) => run_of(views(runs@), uuid) == Some(e@),
            None => run_of(views(runs@), uuid) is None,
        },
{
    let ghost all = views(runs@);
    assert(all.skip(0) =~= all);
    for i in 0..runs.len()
        invariant
            all == views(runs@),
            run_of(all, uuid) == run_of(all.skip(i as int), uuid),
    {
        assert(all.skip(i as int).drop_first() =~= all.skip(i + 1));
        assert(all.skip(i as int)[0] == runs@[i as int]@);
        if runs[i].uuid == uuid {
            return Some(&runs[i]);
        }
    }
    None
}

/// How many blocks the record of page `page` from run `run` has.
pub fn block_count(doc: &Doc, page: u32, run: ExtractionId) -> (r: usize)
    ensures
        r == run_blocks(doc@, page, run).len(),
{
    match find_record(&doc.extracted_pages, page, run) {
        Some(pe) => match &pe.content {
            Content::Structured(sp) => sp.blocks.len(),
            _ => 0,
        },
        None => 0,
    }
}

/// The block that a row stands for.
pub fn find_block<'a>(doc: &'a Doc, page: u32, run: ExtractionId, idx: usize) -> (r: Option<
    &'a StructuredBlock,
>)
    ensures
        match r {
            Some(b) => block_at(doc@, page, run, idx) == Some(b@),
            None => block_at(doc@, page, run, idx) is None,
        },
{
    match find_record(&doc.extracted_pages, page, run) {
        Some(pe) => match &pe.content {
            Content::Structured(sp) => if idx < sp.blocks.len() {
                assert(blocks_of(pe@.content)[idx as int] == sp.blocks@[idx as int]@);
                Some(&sp.blocks[idx])
            } else {
                None
            },
            _ => None,
        },
        None => None,
    }
}

/// The bounding box of the block that a row stands for.
pub fn lookup_block_bbox(doc: &Doc, page: u32, run: ExtractionId, idx: usize) -> (r: Option<BBox>)
    ensures
        match r {
            Some(b) => block_at(doc@, page, run, idx) matches Some(block) && b@ == block.bbox,
            None => block_at(doc@, page, run, idx) is None,
        },
{
    match find_block(doc, page, run, idx) {
        Some(b) => Some(b.bbox.copy()),
        None => None,
    }
}

/// A block that a region can match.
#[derive(Debug, Clone)]
pub struct Candidate {
    pub run: ExtractionId,
    pub idx: usize,
    pub bbox: BBox,
}

impl View for Candidate {
    type V = (ExtractionId, usize, BBoxView);

    open spec fn view(&self) -> (ExtractionId, usize, BBoxView) {
        (self.run, self.idx, self.bbox@)
    }
}

/// The blocks that a region of page `page` can match.
pub fn candidates_on(pages: &Vec<PageExtraction>, page: u32) -> (r: Vec<Candidate>)
    ensures
        views(r@) == candidates(views(pages@), page),
{
    let ghost all = views(pages@);
    let mut out: Vec<Candidate> = Vec::new();
    assert(views(out@) =~= candidates(all.take(0), page));
    for i in 0..pages.len()
        invariant
            all == views(pages@),
            views(out@) == candidates(all.take(i as int), page),
    {
        let pe = &pages[i];
        let ghost upto = all.take(i + 1);
        assert(upto.drop_last() =~= all.take(i as int));
        assert(upto.last() == pe@);
        let ghost before = views(out@);
        let ghost own = blocks_of(pe@.content);
        let ghost shown = Seq::new(
            own.len(),
            |k: int| (pe.extraction_uuid, k as usize, own[k].bbox),
        );
        if pe.page == page {
            if let Content::Structured(sp) = &pe.content {
                assert(before =~= before + shown.take(0));
                for k in 0..sp.blocks.len()
                    invariant
                        own == views(sp.blocks@),
                        shown == Seq::new(
                            own.len(),
                            |k: int| (pe.extraction_uuid, k as usize, own[k].bbox),
                        ),
                        views(out@) == before + shown.take(k as int),
                {
                    let c = Candidate {
                        run: pe.extraction_uuid,
                        idx: k,
                        bbox: sp.blocks[k].bbox.copy(),
                    };
                    assert(own[k as int] == sp.blocks@[k as int]@);
                    let ghost done = views(out@);
                    out.push(c);
                    assert(shown[k as int] == c@);
                    assert(views(out@) =~= done.push(c@));
                    assert(shown.take(k + 1) =~= shown.take(k as int).push(shown[k as int]));
                    assert(views(out@) =~= before + shown.take(k + 1));
                }
                assert(shown.take(shown.len() as int) =~= shown);
            } else {
                assert(before =~= before + shown);
            }
        }
    }
    assert(all.take(all.len() as int) =~= all);
    out
}

// ---------------------------------------------------------------------------
// Rows of the extractions
// ---------------------------------------------------------------------------

/// Append the rows of one record.
fn push_run_rows(Ghost(p): Ghost<PaneView>, pe: &PageExtraction, open: &RunSet, out: &mut Vec<RenderedRow>)
    requires
        open@ == p.expanded_runs,
    ensures
        final(out)@ == old(out)@ + run_rows(p, pe@),
{
    let ghost before = out@;
    let blocks: usize = match &pe.content {
        Content::Structured(sp) => sp.blocks.len(),
        _ => 0,
    };
    let page = pe.page;
    let run = pe.extraction_uuid;
    out.push(RenderedRow::Extraction { page, run, can_expand: blocks > 0 });
    let ghost head = out@;
    if blocks > 0 && open.contains(page, run) {
        assert(head =~= head + block_rows(page, run, 0));
        for k in 0..blocks
            invariant
                out@ == head + block_rows(page, run, k as nat),
        {
            out.push(RenderedRow::Block(page, run, k));
            assert(out@ =~= head + block_rows(page, run, (k + 1) as nat));
        }
    }
    assert(out@ =~= before + run_rows(p, pe@));
}

/// Append the rows of one page.
fn push_page_rows(
    Ghost(p): Ghost<PaneView>,
    doc: &Doc,
    page: u32,
    open: bool,
    open_runs: &RunSet,
    out: &mut Vec<RenderedRow>,
)
    requires
        open == p.expanded_pages.contains(page),
        open_runs@ == p.expanded_runs,
    ensures
        final(out)@ == old(out)@ + page_rows(p, doc@, page),
{
    let ghost before = out@;
    out.push(RenderedRow::Page(page));
    if open {
        let records = doc.page_extractions(page);
        let ghost shown = on_page(doc@.extracted_pages, page);
        assert(records@.len() == shown.len());
        if records.len() == 0 {
            out.push(RenderedRow::EmptyExtractionsStub(page));
        } else {
            let ghost head = out@;
            assert(head =~= head + runs_rows(p, shown, 0));
            for i in 0..records.len()
                invariant
                    open_runs@ == p.expanded_runs,
                    records@.map_values(|p: &PageExtraction| p@) == shown,
                    out@ == head + runs_rows(p, shown, i as nat),
            {
                assert(shown[i as int] == records@[i as int]@) by {
                    assert(records@.map_values(|p: &PageExtraction| p@)[i as int]
                        == records@[i as int]@);
                }
                push_run_rows(Ghost(p), records[i], open_runs, out);
                assert(out@ =~= head + runs_rows(p, shown, (i + 1) as nat));
            }
        }
    }
    assert(out@ =~= before + page_rows(p, doc@, page));
}

/// The rows of the first `page_count` pages.
pub(crate) fn extraction_rows(
    Ghost(p): Ghost<PaneView>,
    doc: &Doc,
    page_count: u32,
    open_pages: &HashSet<u32>,
    open_runs: &RunSet,
) -> (r: Vec<RenderedRow>)
    requires
        open_pages@ == p.expanded_pages,
        open_runs@ == p.expanded_runs,
    ensures
        r@ == pages_rows(p, doc@, page_count as nat),
{
    let mut out: Vec<RenderedRow> = Vec::new();
    for page in 0..page_count
        invariant
            open_pages@ == p.expanded_pages,
            open_runs@ == p.expanded_runs,
            out@ == pages_rows(p, doc@, page as nat),
    {
        let open = open_pages.contains(&page);
        push_page_rows(Ghost(p), doc, page, open, open_runs, &mut out);
    }
    out
}

// ---------------------------------------------------------------------------
// Rows of the table of contents
// ---------------------------------------------------------------------------

/// A table of contents that fits, fits below each of its open entries.
proof fn toc_fits_below(
    toc: Seq<TocEntryView>,
    open: Set<TocEntryId>,
    parent: Option<TocEntryId>,
    depth: int,
    n: nat,
    i: int,
)
    requires
        toc_fits(toc, open, parent, depth, n),
        0 <= i < n,
        depth <= 255,
        toc[i].parent == parent,
        is_open(toc, open, toc[i].id),
    ensures
        depth < 255,
        toc_fits(toc, open, Some(toc[i].id), depth + 1, toc.len()),
    decreases n,
{
    if i < n - 1 {
        toc_fits_below(toc, open, parent, depth, (n - 1) as nat, i);
    }
}

/// The open entries, by their numbers.
pub open spec fn ids_of(s: Set<u128>) -> Set<TocEntryId> {
    Set::new(|id: TocEntryId| s.contains(id.0))
}

/// Are these the numbers of the entries that have others below them?
pub open spec fn are_parents(s: Set<u128>, toc: Seq<TocEntryView>) -> bool {
    forall|id: TocEntryId| #[trigger] s.contains(id.0) <==> has_children(toc, id)
}

/// The entries that have others below them.
pub(crate) fn parents(toc: &Vec<TocEntry>) -> (r: HashSet<u128>)
    ensures
        are_parents(r@, views(toc@)),
{
    let ghost all = views(toc@);
    let mut out: HashSet<u128> = HashSet::new();
    for i in 0..toc.len()
        invariant
            all == views(toc@),
            forall|id: TocEntryId|
                #[trigger] out@.contains(id.0) <==> exists|k: int|
                    0 <= k < i && (#[trigger] all[k]).parent == Some(id),
    {
        let ghost before = out@;
        assert(all[i as int] == toc@[i as int]@);
        if let Some(p) = toc[i].parent {
            out.insert(p.0);
            assert forall|id: TocEntryId| #[trigger] out@.contains(id.0) <==> exists|k: int|
                0 <= k < i + 1 && (#[trigger] all[k]).parent == Some(id) by {
                if id == p {
                    assert(all[i as int].parent == Some(id));
                } else {
                    assert(id.0 != p.0);
                    assert(out@.contains(id.0) <==> before.contains(id.0));
                    if exists|k: int| 0 <= k < i + 1 && (#[trigger] all[k]).parent == Some(id) {
                        let k = choose|k: int|
                            0 <= k < i + 1 && (#[trigger] all[k]).parent == Some(id);
                        assert(k < i);
                    }
                }
            }
        } else {
            assert forall|id: TocEntryId| #[trigger] out@.contains(id.0) <==> exists|k: int|
                0 <= k < i + 1 && (#[trigger] all[k]).parent == Some(id) by {
                if exists|k: int| 0 <= k < i + 1 && (#[trigger] all[k]).parent == Some(id) {
                    let k = choose|k: int|
                        0 <= k < i + 1 && (#[trigger] all[k]).parent == Some(id);
                    assert(k < i);
                }
            }
        }
    }
    out
}

/// Append the rows below `parent`.
fn walk_toc(
    toc: &Vec<TocEntry>,
    open: &HashSet<u128>,
    parents: &HashSet<u128>,
    parent: Option<TocEntryId>,
    depth: u8,
    out: &mut Vec<RenderedRow>,
)
    requires
        are_parents(parents@, views(toc@)),
        toc_fits(views(toc@), ids_of(open@), parent, depth as int, toc@.len()),
    ensures
        final(out)@ == old(out)@ + toc_rows(
            views(toc@),
            ids_of(open@),
            parent,
            depth as int,
            toc@.len(),
        ),
    decreases 256 - depth,
{
    let ghost all = views(toc@);
    let ghost opened = ids_of(open@);
    let ghost start = out@;
    assert(start =~= start + toc_rows(all, opened, parent, depth as int, 0));
    for i in 0..toc.len()
        invariant
            all == views(toc@),
            opened == ids_of(open@),
            are_parents(parents@, all),
            toc_fits(all, opened, parent, depth as int, all.len()),
            out@ == start + toc_rows(all, opened, parent, depth as int, i as nat),
    {
        let e = &toc[i];
        assert(all[i as int] == e@);
        let here = match (e.parent, parent) {
            (None, None) => true,
            (Some(a), Some(b)) => a == b,
            _ => false,
        };
        if here {
            let ghost before = out@;
            let has_children = parents.contains(&e.id.0);
            out.push(RenderedRow::Toc { id: e.id, depth, has_children });
            if has_children && open.contains(&e.id.0) {
                proof {
                    toc_fits_below(all, opened, parent, depth as int, all.len(), i as int);
                }
                walk_toc(toc, open, parents, Some(e.id), depth + 1, out);
            }
            assert(out@ =~= start + toc_rows(all, opened, parent, depth as int, (i + 1) as nat));
        }
    }
}

/// The rows of the table of contents.
pub(crate) fn contents_rows(toc: &Vec<TocEntry>, open: &HashSet<u128>) -> (r: Vec<RenderedRow>)
    requires
        toc_fits(views(toc@), ids_of(open@), None, 0, toc@.len()),
    ensures
        r@ == toc_rows(views(toc@), ids_of(open@), None, 0, toc@.len()),
{
    let mut out: Vec<RenderedRow> = Vec::new();
    let parents = parents(toc);
    walk_toc(toc, open, &parents, None, 0, &mut out);
    assert(out@ =~= toc_rows(views(toc@), ids_of(open@), None, 0, toc@.len()));
    out
}

/// Do the rows below `parent` stay within the depth that a row can have?
fn fits_below(
    toc: &Vec<TocEntry>,
    open: &HashSet<u128>,
    parents: &HashSet<u128>,
    parent: Option<TocEntryId>,
    depth: u8,
) -> (r: bool)
    requires
        are_parents(parents@, views(toc@)),
    ensures
        r == toc_fits(views(toc@), ids_of(open@), parent, depth as int, toc@.len()),
    decreases 256 - depth,
{
    let ghost all = views(toc@);
    let ghost opened = ids_of(open@);
    for i in 0..toc.len()
        invariant
            all == views(toc@),
            opened == ids_of(open@),
            are_parents(parents@, all),
            toc_fits(all, opened, parent, depth as int, i as nat),
    {
        let e = &toc[i];
        assert(all[i as int] == e@);
        let here = match (e.parent, parent) {
            (None, None) => true,
            (Some(a), Some(b)) => a == b,
            _ => false,
        };
        if here && parents.contains(&e.id.0) && open.contains(&e.id.0) {
            if depth == 255 || !fits_below(toc, open, parents, Some(e.id), depth + 1) {
                proof {
                    if toc_fits(all, opened, parent, depth as int, all.len()) {
                        toc_fits_below(all, opened, parent, depth as int, all.len(), i as int);
                    }
                }
                return false;
            }
        }
    }
    true
}

/// Can the table of contents be shown with these entries open?
pub(crate) fn contents_fit(toc: &Vec<TocEntry>, open: &HashSet<u128>) -> (r: bool)
    ensures
        r == toc_fits(views(toc@), ids_of(open@), None, 0, toc@.len()),
{
    let parents = parents(toc);
    fits_below(toc, open, &parents, None, 0)
}

// ---------------------------------------------------------------------------
// Rows
// ---------------------------------------------------------------------------

impl RenderedRow {
    /// Height in pixels.
    pub fn height_px(self) -> (r: u32)
        ensures
            r == row_height(self),
    {
        match self {
            RenderedRow::Page(_) => 22,
            RenderedRow::EmptyExtractionsStub(_) => 20,
            RenderedRow::Extraction { .. } => 20,
            RenderedRow::Block(_, _, _) => 18,
            RenderedRow::Toc { .. } => 22,
        }
    }

    pub fn as_selectable(self) -> (r: Option<SelectedRow>)
        ensures
            r == selectable(self),
    {
        match self {
            RenderedRow::Page(page) => Some(SelectedRow::Page(page)),
            RenderedRow::EmptyExtractionsStub(_) => None,
            RenderedRow::Extraction { page, run, .. } => Some(SelectedRow::Extraction(page, run)),
            RenderedRow::Block(page, run, idx) => Some(SelectedRow::Block(page, run, idx)),
            RenderedRow::Toc { id, .. } => Some(SelectedRow::Toc(id)),
        }
    }
}

/// The selectable ones of the rows.
pub(crate) fn selectable_rows(rows: &Vec<RenderedRow>) -> (r: Vec<SelectedRow>)
    ensures
        r@ == selectables(rows@),
{
    let mut out: Vec<SelectedRow> = Vec::new();
    assert(out@ =~= selectables(rows@.take(0)));
    for i in 0..rows.len()
        invariant
            out@ == selectables(rows@.take(i as int)),
    {
        assert(rows@.take(i + 1).drop_last() =~= rows@.take(i as int));
        if let Some(s) = rows[i].as_selectable() {
            out.push(s);
        }
    }
    assert(rows@.take(rows@.len() as int) =~= rows@);
    out
}

/// The height of some rows is bounded by the height of the highest.
proof fn rows_height_bounded(s: Seq<RenderedRow>, n: nat)
    ensures
        rows_height(s, n) <= 22 * n,
    decreases n,
{
    if n > 0 {
        rows_height_bounded(s, (n - 1) as nat);
    }
}

/// Where a row stands and how high it is, in pixels.
pub(crate) fn offset_of(rows: &Vec<RenderedRow>, target: SelectedRow) -> (r: Option<(u128, u32)>)
    ensures
        match r {
            Some(at) => row_position(rows@, target, 0) matches Some(i) && at.0 == rows_height(
                rows@,
                i,
            ) && at.1 == row_height(rows@[i as int]),
            None => row_position(rows@, target, 0) is None,
        },
{
    let mut y: u128 = 0;
    for i in 0..rows.len()
        invariant
            y == rows_height(rows@, i as nat),
            row_position(rows@, target, 0) == row_position(rows@, target, i as nat),
    {
        let row = rows[i];
        let h = row.height_px();
        if let Some(s) = row.as_selectable() {
            if s == target {
                return Some((y, h));
            }
        }
        proof {
            rows_height_bounded(rows@, i as nat);
        }
        y = y + h as u128;
    }
    None
}

} // verus!
