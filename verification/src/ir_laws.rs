//! What holds of the faults of a document whatever the order of its lists.

use crate::ids::{ExtractionId, TocEntryId};
use crate::ir::{
    DocView, FaultView, PageRefView, TocEntryView, consistent, entry_faults, faults, first_page,
    first_page_exists, first_page_unique, has_extraction, has_page, has_toc_entry,
    no_faults_means_consistent, page_faults, pages_faults, ref_faults, refs_faults, toc_faults,
};
use vstd::prelude::*;
use vstd::seq_lib::lemma_multiset_commutative;

verus! {

/// Do the two documents hold the same records, with the runs and the entries in any
/// order?
pub open spec fn reordered(a: DocView, b: DocView) -> bool {
    &&& a.extractions.to_multiset() == b.extractions.to_multiset()
    &&& a.toc.to_multiset() == b.toc.to_multiset()
    &&& a.extracted_pages == b.extracted_pages
}

/// Does everything that `a` refers to exist in `b` if and only if it exists in `a`?
spec fn resolve_alike(a: DocView, b: DocView) -> bool {
    &&& forall|id: ExtractionId| #[trigger] has_extraction(a, id) <==> has_extraction(b, id)
    &&& forall|id: TocEntryId| #[trigger] has_toc_entry(a, id) <==> has_toc_entry(b, id)
    &&& a.extracted_pages == b.extracted_pages
}

proof fn same_items<T>(a: Seq<T>, b: Seq<T>, x: T)
    requires
        a.to_multiset() == b.to_multiset(),
        a.contains(x),
    ensures
        b.contains(x),
{
    a.to_multiset_ensures();
    b.to_multiset_ensures();
    assert(a.to_multiset().count(x) > 0);
}

proof fn runs_stay(a: DocView, b: DocView, id: ExtractionId)
    requires
        reordered(a, b),
        has_extraction(a, id),
    ensures
        has_extraction(b, id),
{
    let i = choose|i: int|
        0 <= i < a.extractions.len() && (#[trigger] a.extractions[i]).uuid == id;
    same_items(a.extractions, b.extractions, a.extractions[i]);
    let j = choose|j: int|
        0 <= j < b.extractions.len() && b.extractions[j] == a.extractions[i];
    assert(b.extractions[j].uuid == id);
}

proof fn entries_stay(a: DocView, b: DocView, id: TocEntryId)
    requires
        reordered(a, b),
        has_toc_entry(a, id),
    ensures
        has_toc_entry(b, id),
{
    let i = choose|i: int| 0 <= i < a.toc.len() && (#[trigger] a.toc[i]).id == id;
    same_items(a.toc, b.toc, a.toc[i]);
    let j = choose|j: int| 0 <= j < b.toc.len() && b.toc[j] == a.toc[i];
    assert(b.toc[j].id == id);
}

proof fn reordered_resolve_alike(a: DocView, b: DocView)
    requires
        reordered(a, b),
    ensures
        resolve_alike(a, b),
{
    assert forall|id: ExtractionId| #[trigger] has_extraction(a, id) <==> has_extraction(b, id) by {
        if has_extraction(a, id) {
            runs_stay(a, b, id);
        }
        if has_extraction(b, id) {
            runs_stay(b, a, id);
        }
    }
    assert forall|id: TocEntryId| #[trigger] has_toc_entry(a, id) <==> has_toc_entry(b, id) by {
        if has_toc_entry(a, id) {
            entries_stay(a, b, id);
        }
        if has_toc_entry(b, id) {
            entries_stay(b, a, id);
        }
    }
}

proof fn ref_faults_alike(a: DocView, b: DocView, id: TocEntryId, r: PageRefView)
    requires
        resolve_alike(a, b),
    ensures
        ref_faults(a, id, r) == ref_faults(b, id, r),
{
    assert(has_extraction(a, r.extraction_uuid) == has_extraction(b, r.extraction_uuid));
    assert(has_page(a, r.page_uuid) == has_page(b, r.page_uuid));
    if has_page(a, r.page_uuid) {
        first_page_exists(a, r.page_uuid);
        first_page_exists(b, r.page_uuid);
        let i = choose|i: int| first_page(a, r.page_uuid, i);
        let j = choose|i: int| first_page(b, r.page_uuid, i);
        assert(first_page(a, r.page_uuid, j));
        first_page_unique(a, r.page_uuid, i, j);
    }
}

proof fn refs_faults_alike(
    a: DocView,
    b: DocView,
    id: TocEntryId,
    refs: Seq<PageRefView>,
    n: nat,
)
    requires
        resolve_alike(a, b),
    ensures
        refs_faults(a, id, refs, n) == refs_faults(b, id, refs, n),
    decreases n,
{
    if n > 0 {
        refs_faults_alike(a, b, id, refs, (n - 1) as nat);
        ref_faults_alike(a, b, id, refs[n - 1]);
    }
}

proof fn entry_faults_alike(a: DocView, b: DocView, t: TocEntryView)
    requires
        resolve_alike(a, b),
    ensures
        entry_faults(a, t) == entry_faults(b, t),
{
    assert(has_extraction(a, t.built_by) == has_extraction(b, t.built_by));
    if let Some(parent) = t.parent {
        assert(has_toc_entry(a, parent) == has_toc_entry(b, parent));
    }
    refs_faults_alike(a, b, t.id, t.page_refs, t.page_refs.len());
}

proof fn pages_faults_alike(a: DocView, b: DocView, n: nat)
    requires
        resolve_alike(a, b),
    ensures
        pages_faults(a, n) == pages_faults(b, n),
    decreases n,
{
    if n > 0 {
        pages_faults_alike(a, b, (n - 1) as nat);
        let p = a.extracted_pages[n - 1];
        assert(has_extraction(a, p.extraction_uuid) == has_extraction(b, p.extraction_uuid));
        assert(page_faults(a, p) == page_faults(b, p));
    }
}

/// The faults, in `d`, of a list of entries.
spec fn listed_faults(d: DocView, list: Seq<TocEntryView>) -> Seq<FaultView>
    decreases list.len(),
{
    if list.len() == 0 {
        Seq::empty()
    } else {
        listed_faults(d, list.drop_last()) + entry_faults(d, list.last())
    }
}

proof fn toc_faults_are_listed(d: DocView, e: DocView, n: nat)
    requires
        resolve_alike(d, e),
        n <= e.toc.len(),
    ensures
        toc_faults(e, n) == listed_faults(d, e.toc.take(n as int)),
    decreases n,
{
    if n > 0 {
        toc_faults_are_listed(d, e, (n - 1) as nat);
        entry_faults_alike(d, e, e.toc[n - 1]);
        assert(e.toc.take(n as int).drop_last() =~= e.toc.take(n - 1));
        assert(e.toc.take(n as int).last() == e.toc[n - 1]);
    }
}

proof fn faults_without(d: DocView, list: Seq<TocEntryView>, j: int)
    requires
        0 <= j < list.len(),
    ensures
        listed_faults(d, list).to_multiset() == listed_faults(d, list.remove(j)).to_multiset().add(
            entry_faults(d, list[j]).to_multiset(),
        ),
    decreases list.len(),
{
    let init = list.drop_last();
    let end = entry_faults(d, list.last());
    lemma_multiset_commutative(listed_faults(d, init), end);
    if j == list.len() - 1 {
        assert(list.remove(j) =~= init);
    } else {
        faults_without(d, init, j);
        let less = list.remove(j);
        assert(less.drop_last() =~= init.remove(j));
        assert(less.last() == list.last());
        lemma_multiset_commutative(listed_faults(d, less.drop_last()), end);
        let rest = listed_faults(d, init.remove(j)).to_multiset();
        let one = entry_faults(d, list[j]).to_multiset();
        let other = end.to_multiset();
        assert(rest.add(one).add(other) =~= rest.add(other).add(one));
    }
}

proof fn listed_faults_reordered(d: DocView, a: Seq<TocEntryView>, b: Seq<TocEntryView>)
    requires
        a.to_multiset() == b.to_multiset(),
    ensures
        listed_faults(d, a).to_multiset() == listed_faults(d, b).to_multiset(),
    decreases a.len(),
{
    a.to_multiset_ensures();
    b.to_multiset_ensures();
    assert(a.len() == b.len());
    if a.len() > 0 {
        let i = a.len() - 1;
        let x = a[i];
        assert(a.contains(x));
        same_items(a, b, x);
        let j = choose|j: int| 0 <= j < b.len() && b[j] == x;
        faults_without(d, a, i);
        faults_without(d, b, j);
        assert(a.remove(i).to_multiset() == b.remove(j).to_multiset());
        listed_faults_reordered(d, a.remove(i), b.remove(j));
    }
}

/// Putting the runs and the entries of a document in another order only puts the
/// faults in another order: an entry may stand before its parent.
pub proof fn reordering_reorders_the_faults(a: DocView, b: DocView)
    requires
        reordered(a, b),
    ensures
        faults(a).to_multiset() == faults(b).to_multiset(),
        consistent(a) <==> consistent(b),
{
    reordered_resolve_alike(a, b);
    pages_faults_alike(a, b, a.extracted_pages.len());
    toc_faults_are_listed(a, a, a.toc.len());
    toc_faults_are_listed(a, b, b.toc.len());
    assert(a.toc.take(a.toc.len() as int) =~= a.toc);
    assert(b.toc.take(b.toc.len() as int) =~= b.toc);
    listed_faults_reordered(a, a.toc, b.toc);
    let pages = pages_faults(a, a.extracted_pages.len());
    lemma_multiset_commutative(pages, toc_faults(a, a.toc.len()));
    lemma_multiset_commutative(pages, toc_faults(b, b.toc.len()));
    faults(a).to_multiset_ensures();
    faults(b).to_multiset_ensures();
    no_faults_means_consistent(a);
    no_faults_means_consistent(b);
}

} // verus!
