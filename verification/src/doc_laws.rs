//! What is found in a document, and what is wrong with it, said of its records.

use crate::ids::{ExtractionId, PageId, TocEntryId, uuid_text};
use crate::ir::{
    BBoxView, ContentView, DocView, FaultView, PageExtractionView, PageRefView, TocEntryView, entry_faults,
    equal_boxes, equal_regions, faults, first_extraction, first_page, first_page_exists,
    first_page_unique, first_toc_entry, format_of, has_extraction, has_page, has_toc_entry, kind_color,
    link_faults, on_page, page_faults, pages_faults, ref_faults, refs_faults, toc_faults,
};
use crate::number::equal_numbers;
use crate::text::ascii_lowercase;
use vstd::prelude::*;

verus! {

// ---------------------------------------------------------------------------
// Lookups
// ---------------------------------------------------------------------------

/// The records of a page.
pub open spec fn of_that_page(page: u32) -> spec_fn(PageExtractionView) -> bool {
    |p: PageExtractionView| p.page == page
}

/// The records of a page are all those that name it, in document order.
pub proof fn every_record_of_the_page_is_found(pages: Seq<PageExtractionView>, page: u32)
    ensures
        on_page(pages, page) == pages.filter(of_that_page(page)),
    decreases pages.len(),
{
    reveal(Seq::filter);
    if pages.len() > 0 {
        every_record_of_the_page_is_found(pages.drop_last(), page);
    }
}

// ---------------------------------------------------------------------------
// Faults
// ---------------------------------------------------------------------------

/// Is there no run of this identity?
pub open spec fn no_run(d: DocView, id: ExtractionId) -> bool {
    forall|i: int| 0 <= i < d.extractions.len() ==> (#[trigger] d.extractions[i]).uuid != id
}

/// Is there no page record of this identity?
pub open spec fn no_page(d: DocView, id: PageId) -> bool {
    forall|i: int| 0 <= i < d.extracted_pages.len() ==> (#[trigger] d.extracted_pages[i]).page_uuid != id
}

/// Is there no entry of this identity?
pub open spec fn no_entry(d: DocView, id: TocEntryId) -> bool {
    forall|i: int| 0 <= i < d.toc.len() ==> (#[trigger] d.toc[i]).id != id
}

/// Is this a fault of the record?
pub open spec fn is_page_fault(d: DocView, p: PageExtractionView, f: FaultView) -> bool {
    no_run(d, p.extraction_uuid) && f == (FaultView::DanglingExtractionRef {
        via: "PageExtraction(page_uuid="@ + uuid_text(p.page_uuid.0) + ")"@,
        extraction_uuid: p.extraction_uuid,
    })
}

/// Is this a fault of the reference, of an entry `id`? A reference to a page record whose
/// identity occurs several times is one to the first of them.
pub open spec fn is_ref_fault(d: DocView, id: TocEntryId, r: PageRefView, f: FaultView) -> bool {
    ||| no_run(d, r.extraction_uuid) && f == (FaultView::DanglingExtractionRef {
        via: "TocEntry(id="@ + uuid_text(id.0) + ").page_refs.extraction_uuid"@,
        extraction_uuid: r.extraction_uuid,
    })
    ||| no_page(d, r.page_uuid) && f == (FaultView::DanglingPageRef {
        entry: id,
        page_uuid: r.page_uuid,
    })
    ||| exists|i: int|
        {
            &&& 0 <= i < d.extracted_pages.len()
            &&& (#[trigger] d.extracted_pages[i]).page_uuid == r.page_uuid
            &&& forall|j: int|
                0 <= j < i ==> (#[trigger] d.extracted_pages[j]).page_uuid != r.page_uuid
            &&& d.extracted_pages[i].page != r.page
            &&& f == (FaultView::PageRefPageMismatch {
                entry: id,
                page_uuid: r.page_uuid,
                ref_page: r.page,
                actual_page: d.extracted_pages[i].page,
            })
        }
}

/// Is this a fault of the entry?
pub open spec fn is_entry_fault(d: DocView, t: TocEntryView, f: FaultView) -> bool {
    ||| no_run(d, t.built_by) && f == (FaultView::DanglingExtractionRef {
        via: "TocEntry(id="@ + uuid_text(t.id.0) + ").built_by"@,
        extraction_uuid: t.built_by,
    })
    ||| t.parent matches Some(parent) && no_entry(d, parent) && f == (FaultView::DanglingTocParent {
        entry: t.id,
        parent,
    })
    ||| exists|k: int| 0 <= k < t.page_refs.len() && is_ref_fault(d, t.id, #[trigger] t.page_refs[k], f)
}

proof fn in_either(a: Seq<FaultView>, b: Seq<FaultView>, f: FaultView)
    ensures
        (a + b).contains(f) <==> a.contains(f) || b.contains(f),
{
    if a.contains(f) {
        let i = choose|i: int| 0 <= i < a.len() && a[i] == f;
        assert((a + b)[i] == f);
    }
    if b.contains(f) {
        let i = choose|i: int| 0 <= i < b.len() && b[i] == f;
        assert((a + b)[a.len() + i] == f);
    }
}

proof fn in_one(x: FaultView, f: FaultView)
    ensures
        seq![x].contains(f) <==> f == x,
        !Seq::<FaultView>::empty().contains(f),
{
    assert(seq![x][0] == x);
}

proof fn ref_faults_are(d: DocView, id: TocEntryId, r: PageRefView, f: FaultView)
    ensures
        ref_faults(d, id, r).contains(f) <==> is_ref_fault(d, id, r, f),
{
    let run_fault = FaultView::DanglingExtractionRef {
        via: "TocEntry(id="@ + uuid_text(id.0) + ").page_refs.extraction_uuid"@,
        extraction_uuid: r.extraction_uuid,
    };
    let run = if crate::ir::has_extraction(d, r.extraction_uuid) {
        Seq::empty()
    } else {
        seq![run_fault]
    };
    in_one(run_fault, f);
    if crate::ir::has_page(d, r.page_uuid) {
        first_page_exists(d, r.page_uuid);
        let i = choose|i: int| first_page(d, r.page_uuid, i);
        assert(d.extracted_pages[i].page_uuid == r.page_uuid);
        let mismatch = FaultView::PageRefPageMismatch {
            entry: id,
            page_uuid: r.page_uuid,
            ref_page: r.page,
            actual_page: d.extracted_pages[i].page,
        };
        in_one(mismatch, f);
        if d.extracted_pages[i].page != r.page {
            in_either(run, seq![mismatch], f);
        } else {
            in_either(run, Seq::empty(), f);
        }
        assert forall|j: int|
            0 <= j < d.extracted_pages.len() && (#[trigger] d.extracted_pages[j]).page_uuid
                == r.page_uuid && (forall|k: int|
                0 <= k < j ==> (#[trigger] d.extracted_pages[k]).page_uuid != r.page_uuid) implies j
            == i by {
            assert(first_page(d, r.page_uuid, j));
            first_page_unique(d, r.page_uuid, i, j);
        }
        if is_ref_fault(d, id, r, f) && !run.contains(f) {
            assert(f == mismatch);
        }
    } else {
        let lost = FaultView::DanglingPageRef { entry: id, page_uuid: r.page_uuid };
        in_one(lost, f);
        in_either(run, seq![lost], f);
    }
}

proof fn refs_faults_are(d: DocView, id: TocEntryId, refs: Seq<PageRefView>, n: nat, f: FaultView)
    requires
        n <= refs.len(),
    ensures
        refs_faults(d, id, refs, n).contains(f) <==> exists|k: int|
            0 <= k < n && is_ref_fault(d, id, #[trigger] refs[k], f),
    decreases n,
{
    if n == 0 {
        assert(!Seq::<FaultView>::empty().contains(f));
    } else {
        let before = (n - 1) as nat;
        refs_faults_are(d, id, refs, before, f);
        ref_faults_are(d, id, refs[n - 1], f);
        in_either(refs_faults(d, id, refs, before), ref_faults(d, id, refs[n - 1]), f);
    }
}

proof fn entry_faults_are(d: DocView, t: TocEntryView, f: FaultView)
    ensures
        entry_faults(d, t).contains(f) <==> is_entry_fault(d, t, f),
{
    refs_faults_are(d, t.id, t.page_refs, t.page_refs.len(), f);
    let refs = refs_faults(d, t.id, t.page_refs, t.page_refs.len());
    in_either(link_faults(d, t), refs, f);
    let run_fault = FaultView::DanglingExtractionRef {
        via: "TocEntry(id="@ + uuid_text(t.id.0) + ").built_by"@,
        extraction_uuid: t.built_by,
    };
    let run = if crate::ir::has_extraction(d, t.built_by) {
        Seq::empty()
    } else {
        seq![run_fault]
    };
    in_one(run_fault, f);
    if let Some(parent) = t.parent {
        let up = FaultView::DanglingTocParent { entry: t.id, parent };
        in_one(up, f);
        if crate::ir::has_toc_entry(d, parent) {
            in_either(run, Seq::empty(), f);
        } else {
            in_either(run, seq![up], f);
        }
    } else {
        in_either(run, Seq::empty(), f);
    }
}

proof fn pages_faults_are(d: DocView, n: nat, f: FaultView)
    requires
        n <= d.extracted_pages.len(),
    ensures
        pages_faults(d, n).contains(f) <==> exists|k: int|
            0 <= k < n && is_page_fault(d, #[trigger] d.extracted_pages[k], f),
    decreases n,
{
    if n == 0 {
        assert(!Seq::<FaultView>::empty().contains(f));
    } else {
        let before = (n - 1) as nat;
        let p = d.extracted_pages[n - 1];
        pages_faults_are(d, before, f);
        in_one(
            FaultView::DanglingExtractionRef {
                via: "PageExtraction(page_uuid="@ + uuid_text(p.page_uuid.0) + ")"@,
                extraction_uuid: p.extraction_uuid,
            },
            f,
        );
        in_either(pages_faults(d, before), page_faults(d, p), f);
        assert(page_faults(d, p).contains(f) <==> is_page_fault(d, p, f));
    }
}

proof fn toc_faults_are(d: DocView, n: nat, f: FaultView)
    requires
        n <= d.toc.len(),
    ensures
        toc_faults(d, n).contains(f) <==> exists|k: int|
            0 <= k < n && is_entry_fault(d, #[trigger] d.toc[k], f),
    decreases n,
{
    if n == 0 {
        assert(!Seq::<FaultView>::empty().contains(f));
    } else {
        let before = (n - 1) as nat;
        toc_faults_are(d, before, f);
        entry_faults_are(d, d.toc[n - 1], f);
        in_either(toc_faults(d, before), entry_faults(d, d.toc[n - 1]), f);
    }
}

/// The faults of a document are those of its records and of its entries, and no others:
/// every reference to a run, a page record or an entry that is not there, and every
/// reference to a page record of another page.
pub proof fn every_fault_is_found(d: DocView, f: FaultView)
    ensures
        faults(d).contains(f) <==> {
            ||| exists|k: int|
                0 <= k < d.extracted_pages.len() && is_page_fault(
                    d,
                    #[trigger] d.extracted_pages[k],
                    f,
                )
            ||| exists|k: int| 0 <= k < d.toc.len() && is_entry_fault(d, #[trigger] d.toc[k], f)
        },
{
    pages_faults_are(d, d.extracted_pages.len(), f);
    toc_faults_are(d, d.toc.len(), f);
    in_either(pages_faults(d, d.extracted_pages.len()), toc_faults(d, d.toc.len()), f);
}

// ---------------------------------------------------------------------------
// Boxes and colours
// ---------------------------------------------------------------------------

/// Boxes are equal where all four of their numbers are, and regions where their page is,
/// too.
pub proof fn equality_of_regions(a: BBoxView, b: BBoxView, page: u32, other: u32)
    ensures
        equal_boxes(a, b) <==> equal_numbers(a.x, b.x) && equal_numbers(a.y, b.y) && equal_numbers(
            a.w,
            b.w,
        ) && equal_numbers(a.h, b.h),
        equal_regions(Some((page, a)), Some((other, b))) <==> page == other && equal_boxes(a, b),
        !equal_regions(Some((page, a)), None),
        !equal_regions(None, Some((page, a))),
        equal_regions(None, None),
{
}

/// Every kind of blocks has a colour of its own, but for items, which have that of their
/// lists, and capitals do not matter.
pub proof fn colours_tell_kinds_apart(kind: Seq<char>)
    ensures
        ({
            let k = ascii_lowercase(kind);
            let c = kind_color(kind);
            &&& c == 0xdc1e1e <==> k == "table"@
            &&& c == 0xc85050 <==> k == "table_footnote"@
            &&& c == 0x1e78dc <==> k == "text"@
            &&& c == 0x1eb43c <==> k == "title"@
            &&& c == 0xf08c1e <==> k == "figure"@
            &&& c == 0xdcaa3c <==> k == "figure_caption"@
            &&& c == 0x828282 <==> k == "footer"@
            &&& c == 0x1ec8c8 <==> k == "header"@
            &&& c == 0xffd700 <==> k == "logo"@
            &&& c == 0xc83cc8 <==> k == "list"@ || k == "list_item"@
            &&& c == 0xb43cc8 <==> k != "table"@ && k != "table_footnote"@ && k != "text"@ && k
                != "title"@ && k != "figure"@ && k != "figure_caption"@ && k != "footer"@ && k
                != "header"@ && k != "logo"@ && k != "list"@ && k != "list_item"@
        }),
        forall|other: Seq<char>| #[trigger]
            ascii_lowercase(other) == ascii_lowercase(kind) ==> kind_color(other) == kind_color(kind),
{
    reveal_strlit("table");
    reveal_strlit("table_footnote");
    reveal_strlit("text");
    reveal_strlit("title");
    reveal_strlit("figure");
    reveal_strlit("figure_caption");
    reveal_strlit("footer");
    reveal_strlit("header");
    reveal_strlit("logo");
    reveal_strlit("list");
    reveal_strlit("list_item");
    assert("table"@.len() == 5 && "table"@[1] == 'a');
    assert("title"@.len() == 5 && "title"@[1] == 'i');
    assert("text"@.len() == 4 && "text"@[0] == 't');
    assert("logo"@.len() == 4 && "logo"@[1] == 'o');
    assert("list"@.len() == 4 && "list"@[1] == 'i');
    assert("list"@[0] == 'l');
    assert("figure"@.len() == 6 && "figure"@[1] == 'i');
    assert("footer"@.len() == 6 && "footer"@[1] == 'o');
    assert("header"@.len() == 6 && "header"@[0] == 'h');
    assert("footer"@[0] == 'f' && "figure"@[0] == 'f');
    assert("table_footnote"@.len() == 14 && "table_footnote"@[0] == 't');
    assert("figure_caption"@.len() == 14 && "figure_caption"@[0] == 'f');
    assert("list_item"@.len() == 9);
}

/// The format of a record is that of what it holds.
pub proof fn formats_tell_contents_apart(c: ContentView)
    ensures
        format_of(c) is Markdown <==> c is Markdown,
        format_of(c) is StructuredJson <==> c is Structured,
        format_of(c) is Error <==> c is Error,
{
}

/// What is looked up by its identity is the first of that identity, and it is found where
/// there is one.
pub proof fn lookups_find_the_first(
    d: DocView,
    run: ExtractionId,
    page: PageId,
    entry: TocEntryId,
    i: int,
)
    ensures
        first_extraction(d, run, i) <==> 0 <= i < d.extractions.len() && d.extractions[i].uuid == run
            && forall|j: int| 0 <= j < i ==> (#[trigger] d.extractions[j]).uuid != run,
        first_page(d, page, i) <==> 0 <= i < d.extracted_pages.len() && d.extracted_pages[i].page_uuid
            == page && forall|j: int|
            0 <= j < i ==> (#[trigger] d.extracted_pages[j]).page_uuid != page,
        first_toc_entry(d, entry, i) <==> 0 <= i < d.toc.len() && d.toc[i].id == entry && forall|
            j: int,
        |
            0 <= j < i ==> (#[trigger] d.toc[j]).id != entry,
        has_extraction(d, run) <==> !no_run(d, run),
        has_page(d, page) <==> !no_page(d, page),
        has_toc_entry(d, entry) <==> !no_entry(d, entry),
{
}

} // verus!
