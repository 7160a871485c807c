//! What a table of contents is built from, said of the pages, the lines and the answer.

use crate::ids::ExtractionId;
use crate::ir::{
    DocView, ExtractionView, PageExtractionView, PageRefView, TocEntryView, views,
};
use crate::text::{
    CharClass, decimal, ends_with, lines, starts_with, trim, trim_end, trim_start,
};
use crate::text_laws::{all_of, blank, is_of, trimming_the_end, trimming_the_front};
use crate::toc::{
    LlmPlan, LlmRow, PREAMBLE, RowView, TASK, TocBuildResult, entries_match, entry_matches, hashes,
    heading, heading_rows, is_heading_build, is_latest, is_llm_plan, json_part, line_rows, llm_params, page_rows,
    page_section, parent_row_is_nearest, pass1_pages, pass1_pages_are_latest, range_params, refs_to,
    sections, toc_prompt, usable_rows, with_toc,
};
use vstd::prelude::*;

verus! {

// ---------------------------------------------------------------------------
// Pages
// ---------------------------------------------------------------------------

/// Is record `i` a Markdown record of a page from `first` to `last`, and no later record
/// one of the same page?
pub open spec fn counts(records: Seq<PageExtractionView>, first: u32, last: u32, i: int) -> bool {
    &&& 0 <= i < records.len()
    &&& records[i].content is Markdown
    &&& first <= records[i].page
    &&& records[i].page <= last
    &&& forall|j: int|
        i < j < records.len() && (#[trigger] records[j]).content is Markdown ==> records[j].page
            != records[i].page
}

/// The pages to build from are exactly the records that count, each page once, in the
/// order of their numbers.
pub proof fn pages_are_those_that_count(
    records: Seq<PageExtractionView>,
    first: u32,
    last: u32,
    p: PageExtractionView,
)
    ensures
        pass1_pages(records, first, last).contains(p) <==> exists|i: int| #[trigger]
            counts(records, first, last, i) && records[i] == p,
        forall|a: int, b: int|
            0 <= a < b < pass1_pages(records, first, last).len() ==> (
            #[trigger] pass1_pages(records, first, last)[a]).page < (#[trigger] pass1_pages(
                records,
                first,
                last,
            )[b]).page,
{
    let pages = pass1_pages(records, first, last);
    pass1_pages_are_latest(records, first, last);
    if pages.contains(p) {
        assert(is_latest(records, first, last, p));
        let i = choose|i: int|
            {
                &&& 0 <= i < records.len()
                &&& #[trigger] records[i] == p
                &&& crate::toc::chosen(p, first, last)
                &&& forall|j: int|
                    i < j < records.len() && crate::toc::chosen(
                        #[trigger] records[j],
                        first,
                        last,
                    ) ==> records[j].page != p.page
            };
        assert(counts(records, first, last, i));
    }
    if exists|i: int| #[trigger] counts(records, first, last, i) && records[i] == p {
        let i = choose|i: int| #[trigger] counts(records, first, last, i) && records[i] == p;
        assert(crate::toc::chosen(records[i], first, last));
        let k = choose|k: int| 0 <= k < pages.len() && (#[trigger] pages[k]).page == p.page;
        let q = pages[k];
        assert(pages.contains(q));
        assert(is_latest(records, first, last, q));
        let j = choose|j: int|
            {
                &&& 0 <= j < records.len()
                &&& #[trigger] records[j] == q
                &&& crate::toc::chosen(q, first, last)
                &&& forall|m: int|
                    j < m < records.len() && crate::toc::chosen(
                        #[trigger] records[m],
                        first,
                        last,
                    ) ==> records[m].page != q.page
            };
        if i < j {
            assert(records[j].content is Markdown);
        } else if j < i {
            assert(crate::toc::chosen(records[i], first, last));
        }
        assert(p == q);
    }
}

// ---------------------------------------------------------------------------
// The prompt
// ---------------------------------------------------------------------------

/// The line that names a page, and its Markdown behind it.
pub open spec fn page_piece(p: PageExtractionView) -> Seq<char> {
    "=== PAGE "@ + decimal(p.page as nat) + " ===\n\n"@ + p.content->Markdown_0
}

/// Does the piece of page `i` stand at `at[i]` of the text, each behind the one before it?
pub open spec fn pieces_stand_at(text: Seq<char>, pages: Seq<PageExtractionView>, at: Seq<int>) -> bool {
    &&& at.len() == pages.len()
    &&& forall|i: int|
        0 <= i < pages.len() ==> {
            &&& 0 <= #[trigger] at[i]
            &&& at[i] + page_piece(pages[i]).len() <= text.len()
            &&& text.subrange(at[i], at[i] + page_piece(pages[i]).len()) == page_piece(pages[i])
        }
    &&& forall|i: int, j: int|
        0 <= i < j < pages.len() ==> #[trigger] at[i] + page_piece(pages[i]).len()
            <= #[trigger] at[j]
}

proof fn section_begins_with_its_piece(p: PageExtractionView)
    requires
        p.content is Markdown,
    ensures
        page_piece(p).len() <= page_section(p).len(),
        page_section(p).subrange(0, page_piece(p).len() as int) == page_piece(p),
{
    let s = p.content->Markdown_0;
    let piece = page_piece(p);
    if ends_with(s, "\n"@) {
        assert(page_section(p) =~= piece + "\n"@);
    } else {
        assert(page_section(p) =~= piece + "\n"@ + "\n"@);
    }
    assert(page_section(p).subrange(0, piece.len() as int) =~= piece);
}

proof fn sections_hold_every_page(head: Seq<char>, pages: Seq<PageExtractionView>, n: nat) -> (at:
    Seq<int>)
    requires
        n <= pages.len(),
        forall|i: int| 0 <= i < pages.len() ==> (#[trigger] pages[i]).content is Markdown,
    ensures
        pieces_stand_at(head + sections(pages, n), pages.take(n as int), at),
    decreases n,
{
    let now = pages.take(n as int);
    if n == 0 {
        Seq::empty()
    } else {
        let before = (n - 1) as nat;
        let at = sections_hold_every_page(head, pages, before);
        let done = head + sections(pages, before);
        let p = pages[n - 1];
        section_begins_with_its_piece(p);
        let text = head + sections(pages, n);
        assert(text =~= done + page_section(p));
        let all = at.push(done.len() as int);
        let earlier = pages.take(before as int);
        assert forall|i: int| 0 <= i < now.len() implies {
            &&& 0 <= #[trigger] all[i]
            &&& all[i] + page_piece(now[i]).len() <= text.len()
            &&& text.subrange(all[i], all[i] + page_piece(now[i]).len()) == page_piece(now[i])
        } by {
            if i < before {
                assert(now[i] == earlier[i]);
                assert(all[i] == at[i]);
                let end = at[i] + page_piece(now[i]).len();
                assert(text.subrange(at[i], end) =~= done.subrange(at[i], end));
            } else {
                assert(now[i] == p);
                assert(text.subrange(all[i], all[i] + page_piece(p).len())
                    =~= page_section(p).subrange(0, page_piece(p).len() as int));
            }
        }
        assert forall|i: int, j: int| 0 <= i < j < now.len() implies #[trigger] all[i]
            + page_piece(now[i]).len() <= #[trigger] all[j] by {
            assert(now[i] == earlier[i]);
            assert(all[i] == at[i]);
            if j < before {
                assert(now[j] == earlier[j]);
                assert(all[j] == at[j]);
            }
        }
        all
    }
}

/// The prompt begins with what the model is told, and holds for every page the line with its
/// number and its whole Markdown behind it, in the order of the pages.
pub proof fn the_prompt_holds_every_page(pages: Seq<PageExtractionView>)
    requires
        forall|i: int| 0 <= i < pages.len() ==> (#[trigger] pages[i]).content is Markdown,
    ensures
        starts_with(toc_prompt(pages), PREAMBLE@ + TASK@),
        exists|at: Seq<int>| #[trigger]
            pieces_stand_at(toc_prompt(pages), pages, at) && (forall|i: int|
                0 <= i < at.len() ==> #[trigger] at[i] >= PREAMBLE@.len() + TASK@.len()),
{
    let head = PREAMBLE@ + TASK@;
    let all = sections(pages, pages.len());
    assert(toc_prompt(pages).subrange(0, head.len() as int) =~= head);
    let at = sections_hold_every_page(Seq::empty(), pages, pages.len());
    assert(pages.take(pages.len() as int) =~= pages);
    assert(Seq::<char>::empty() + all =~= all);
    let moved = at.map_values(|x: int| x + head.len());
    let text = toc_prompt(pages);
    assert(text =~= head + all);
    assert forall|i: int| 0 <= i < pages.len() implies {
        &&& 0 <= #[trigger] moved[i]
        &&& moved[i] + page_piece(pages[i]).len() <= text.len()
        &&& text.subrange(moved[i], moved[i] + page_piece(pages[i]).len()) == page_piece(pages[i])
    } by {
        let end = at[i] + page_piece(pages[i]).len();
        assert(text.subrange(moved[i], moved[i] + page_piece(pages[i]).len()) =~= all.subrange(
            at[i],
            end,
        ));
    }
    assert forall|i: int, j: int| 0 <= i < j < pages.len() implies #[trigger] moved[i]
        + page_piece(pages[i]).len() <= #[trigger] moved[j] by {
        assert(at[i] + page_piece(pages[i]).len() <= at[j]);
    }
    assert(pieces_stand_at(text, pages, moved));
}

/// Behind the Markdown of a page stands what ends its last line, if the Markdown does not, and
/// an empty line; then comes the next page or the end.
pub proof fn nothing_else_stands_in_the_prompt(pages: Seq<PageExtractionView>, p: PageExtractionView)
    requires
        p.content is Markdown,
    ensures
        ({
            let s = p.content->Markdown_0;
            toc_prompt(pages.push(p)) == toc_prompt(pages) + page_piece(p) + (if s.len() > 0
                && s.last() == '\n' {
                seq!['\n']
            } else {
                seq!['\n', '\n']
            })
        }),
        toc_prompt(Seq::empty()) == PREAMBLE@ + TASK@,
{
    reveal_strlit("\n");
    let nl = "\n"@;
    assert(nl =~= seq!['\n']);
    let s = p.content->Markdown_0;
    let more = pages.push(p);
    sections_of_the_front(pages, p, pages.len());
    assert(more[pages.len() as int] == p);
    if s.len() > 0 && s.last() == '\n' {
        assert(s.subrange(s.len() - 1, s.len() as int) =~= nl);
        assert(ends_with(s, nl));
    } else if ends_with(s, nl) {
        assert(s.subrange(s.len() - 1, s.len() as int)[0] == s.last());
    }
    assert(toc_prompt(more) =~= toc_prompt(pages) + page_piece(p) + (if s.len() > 0 && s.last()
        == '\n' {
        seq!['\n']
    } else {
        seq!['\n', '\n']
    }));
    assert(toc_prompt(Seq::empty()) =~= PREAMBLE@ + TASK@);
}

proof fn sections_of_the_front(pages: Seq<PageExtractionView>, p: PageExtractionView, n: nat)
    requires
        n <= pages.len(),
    ensures
        sections(pages.push(p), n) == sections(pages, n),
    decreases n,
{
    if n > 0 {
        sections_of_the_front(pages, p, (n - 1) as nat);
    }
}

/// The prompt of a plan holds the whole Markdown of every record that counts.
pub proof fn plans_hold_every_page(
    d: DocView,
    first: u32,
    last: u32,
    model: Seq<char>,
    temperature: Seq<char>,
    plan: LlmPlan,
    i: int,
)
    requires
        is_llm_plan(d, first, last, model, temperature, plan),
        counts(d.extracted_pages, first, last, i),
    ensures
        exists|at: int|
            {
                &&& 0 <= at
                &&& at + page_piece(d.extracted_pages[i]).len() <= plan.prompt@.len()
                &&& #[trigger] plan.prompt@.subrange(
                    at,
                    at + page_piece(d.extracted_pages[i]).len(),
                ) == page_piece(d.extracted_pages[i])
            },
        plan.extraction@.prompt == plan.prompt@,
        plan.extraction@.model == model,
{
    let records = d.extracted_pages;
    let pages = pass1_pages(records, first, last);
    pages_are_those_that_count(records, first, last, records[i]);
    pass1_pages_are_latest(records, first, last);
    assert forall|k: int| 0 <= k < pages.len() implies (#[trigger] pages[k]).content is Markdown by {
        assert(pages.contains(pages[k]));
        assert(is_latest(records, first, last, pages[k]));
    }
    the_prompt_holds_every_page(pages);
    let at = choose|at: Seq<int>| #[trigger]
        pieces_stand_at(toc_prompt(pages), pages, at) && (forall|i: int|
            0 <= i < at.len() ==> #[trigger] at[i] >= PREAMBLE@.len() + TASK@.len());
    let k = choose|k: int| 0 <= k < pages.len() && pages[k] == records[i];
    assert(0 <= at[k]);
    assert(plan.prompt@.subrange(at[k], at[k] + page_piece(records[i]).len()) == page_piece(
        records[i],
    ));
}

// ---------------------------------------------------------------------------
// The answer
// ---------------------------------------------------------------------------

/// Does the row have a title and name the page it was found on?
pub open spec fn can_be_used(row: LlmRow) -> bool {
    row.title matches Some(t) && t@.len() > 0 && row.source_page is Some
}

/// Is `r` what a usable row of the answer says? A row without a level, or with none, is of
/// the first.
pub open spec fn says_the_same(row: LlmRow, r: RowView) -> bool {
    &&& row.title matches Some(t) && r.title == t@
    &&& row.source_page == Some(r.source_page)
    &&& r.destination_page == row.page
    &&& match row.number {
        Some(n) => r.number == Some(n@),
        None => r.number is None,
    }
    &&& match row.level {
        Some(l) => r.level == (if l == 0 {
            1u8
        } else {
            l
        }),
        None => r.level == 1,
    }
}

/// The rows that can be used.
pub open spec fn usable() -> spec_fn(LlmRow) -> bool {
    |row: LlmRow| can_be_used(row)
}

/// Every row of the answer that can be used is kept, in its order, and no other is.
pub proof fn every_usable_row_is_kept(rows: Seq<LlmRow>, n: nat)
    requires
        n <= rows.len(),
    ensures
        ({
            let good = rows.take(n as int).filter(usable());
            &&& usable_rows(rows, n).len() == good.len()
            &&& forall|i: int|
                0 <= i < good.len() ==> can_be_used(good[i]) && says_the_same(
                    good[i],
                    #[trigger] usable_rows(rows, n)[i],
                )
        }),
    decreases n,
{
    reveal(Seq::filter);
    let now = rows.take(n as int);
    if n > 0 {
        every_usable_row_is_kept(rows, (n - 1) as nat);
        assert(now.drop_last() =~= rows.take(n - 1));
        let before = rows.take(n - 1).filter(usable());
        let good = now.filter(usable());
        let out = usable_rows(rows, n);
        assert forall|i: int| 0 <= i < good.len() implies can_be_used(good[i]) && says_the_same(
            good[i],
            #[trigger] out[i],
        ) by {
            if i < before.len() {
                assert(good[i] == before[i]);
                assert(out[i] == usable_rows(rows, (n - 1) as nat)[i]);
            } else {
                assert(good[i] == rows[n - 1]);
            }
        }
    }
}

/// The JSON of an answer in a code fence is what stands in the fence, with or without a
/// language tag; that of any other answer is the answer without white space around it.
pub proof fn fenced_answers_are_unwrapped(body: Seq<char>)
    requires
        body.len() > 0,
        body[0] != '\n',
    ensures
        json_part("```json\n"@ + body + "```"@) == body,
        json_part("```\n"@ + body + "```"@) == body,
        !starts_with(trim(body), "```"@) ==> json_part(body) == trim(body),
{
    reveal_strlit("```json\n");
    reveal_strlit("```\n");
    reveal_strlit("```json");
    reveal_strlit("```");
    let fence = "```"@;
    let tagged = "```json"@;
    assert(fence.len() == 3 && tagged.len() == 7);
    assert("```json\n"@ =~= tagged.push('\n'));
    assert("```\n"@ =~= fence.push('\n'));
    let inner = body + fence;
    assert(inner[0] != '\n');
    assert(inner.subrange(inner.len() - 3, inner.len() as int) =~= fence);
    assert(inner.take(inner.len() - 3) =~= body);
    // With a tag.
    let a = "```json\n"@ + body + fence;
    ticks_are_no_blanks(a);
    assert(a.subrange(0, 3) =~= fence);
    assert(a.subrange(0, 7) =~= tagged);
    let after_a = a.skip(7);
    assert(after_a[0] == '\n');
    assert(after_a.drop_first() =~= inner);
    assert(trim_start(inner, CharClass::Newline) == inner);
    assert(trim_start(after_a, CharClass::Newline) == inner);
    // Without one.
    let b = "```\n"@ + body + fence;
    ticks_are_no_blanks(b);
    assert(b.subrange(0, 3) =~= fence);
    assert(b[3] == '\n');
    assert(!starts_with(b, tagged)) by {
        if starts_with(b, tagged) {
            assert(b.subrange(0, 7)[3] == b[3]);
        }
    }
    let after_b = b.skip(3);
    assert(after_b[0] == '\n');
    assert(after_b.drop_first() =~= inner);
    assert(trim_start(after_b, CharClass::Newline) == inner);
}

proof fn ticks_are_no_blanks(s: Seq<char>)
    requires
        s.len() > 0,
        s[0] == '`',
        s.last() == '`',
    ensures
        trim(s) == s,
{
}

// ---------------------------------------------------------------------------
// Headings
// ---------------------------------------------------------------------------

/// Is this a heading of level `n` with the title `title`: white space, `n` marks, a space
/// where the line goes on, white space, the title, and marks or white space?
pub open spec fn is_heading(
    front: Seq<char>,
    n: int,
    gap: Seq<char>,
    title: Seq<char>,
    back: Seq<char>,
) -> bool {
    &&& blank(front)
    &&& 1 <= n <= 6
    &&& gap.len() > 0 && gap[0] == ' ' && blank(gap)
    &&& title.len() > 0
    &&& !crate::text::is_white_space(title[0])
    &&& !crate::text::is_white_space(title.last())
    &&& title.last() != '#'
    &&& all_of(back, CharClass::HashOrBlank)
}

/// `n` marks.
pub open spec fn marks(n: int) -> Seq<char> {
    Seq::new(n as nat, |i: int| '#')
}

proof fn hashes_of_marks(n: int, rest: Seq<char>)
    requires
        n >= 0,
        rest.len() > 0 ==> rest[0] != '#',
    ensures
        hashes(marks(n) + rest) == n,
    decreases n,
{
    let s = marks(n) + rest;
    if n > 0 {
        hashes_of_marks(n - 1, rest);
        assert(s.drop_first() =~= marks(n - 1) + rest);
    } else {
        assert(s =~= rest);
    }
}

proof fn front_is_trimmed(a: Seq<char>, x: Seq<char>)
    requires
        blank(a),
        x.len() > 0,
        !crate::text::is_white_space(x[0]),
    ensures
        trim_start(a + x, CharClass::Blank) == x,
    decreases a.len(),
{
    let s = a + x;
    if a.len() > 0 {
        assert(crate::text::is_white_space(a[0]));
        assert forall|i: int| 0 <= i < a.drop_first().len() implies crate::text::is_white_space(
            #[trigger] a.drop_first()[i],
        ) by {
            assert(a.drop_first()[i] == a[i + 1]);
        }
        front_is_trimmed(a.drop_first(), x);
        assert(s.drop_first() =~= a.drop_first() + x);
    } else {
        assert(s =~= x);
    }
}

proof fn back_is_trimmed(x: Seq<char>, b: Seq<char>)
    requires
        all_of(b, CharClass::HashOrBlank),
        x.len() > 0,
        !crate::text::is_white_space(x.last()),
        x.last() != '#',
    ensures
        trim_end(x + b, CharClass::HashOrBlank) == x,
    decreases b.len(),
{
    let s = x + b;
    if b.len() > 0 {
        let rest = b.drop_last();
        assert(b[b.len() - 1] == '#' || crate::text::is_white_space(b[b.len() - 1]));
        assert forall|i: int| 0 <= i < rest.len() implies (rest[i] == '#'
            || crate::text::is_white_space(#[trigger] rest[i])) by {
            assert(rest[i] == b[i]);
            assert(crate::text::is_white_space(b[i]) || b[i] == '#');
        }
        assert(all_of(rest, CharClass::HashOrBlank));
        back_is_trimmed(x, rest);
        assert(s.drop_last() =~= x + rest);
    } else {
        assert(s =~= x);
    }
}

/// A line of that form is the heading of that level with that title.
pub proof fn headings_are_found(
    front: Seq<char>,
    n: int,
    gap: Seq<char>,
    title: Seq<char>,
    back: Seq<char>,
)
    requires
        is_heading(front, n, gap, title, back),
    ensures
        heading(front + marks(n) + gap + title + back) == Some((n as u8, title)),
{
    let rest = gap + title + back;
    let s = marks(n) + rest;
    let line = front + marks(n) + gap + title + back;
    assert(line =~= front + s);
    assert(s[0] == '#');
    front_is_trimmed(front, s);
    assert(rest[0] == ' ');
    hashes_of_marks(n, rest);
    assert(s.skip(n) =~= rest);
    assert(rest =~= gap + (title + back));
    assert((title + back)[0] == title[0]);
    front_is_trimmed(gap, title + back);
    back_is_trimmed(title, back);
}

proof fn marks_of_hashes(s: Seq<char>)
    ensures
        hashes(s) <= s.len(),
        s == marks(hashes(s) as int) + s.skip(hashes(s) as int),
        hashes(s) < s.len() ==> s[hashes(s) as int] != '#',
    decreases s.len(),
{
    if s.len() > 0 && s[0] == '#' {
        let rest = s.drop_first();
        marks_of_hashes(rest);
        let n = hashes(rest) as int;
        assert(s.skip(n + 1) =~= rest.skip(n));
        assert(s =~= seq!['#'] + rest);
        assert(seq!['#'] + (marks(n) + rest.skip(n)) =~= marks(n + 1) + s.skip(n + 1));
    } else {
        assert(s =~= marks(0) + s.skip(0));
    }
}

/// What is found as a heading is a line of that form.
pub proof fn only_headings_are_found(line: Seq<char>)
    ensures
        heading(line) matches Some(h) ==> exists|
            front: Seq<char>,
            gap: Seq<char>,
            back: Seq<char>,
        | #[trigger]
            is_heading(front, h.0 as int, gap, h.1, back) && line == front + marks(h.0 as int) + gap
                + h.1 + back,
{
    if let Some(h) = heading(line) {
        let front = trimming_the_front(line, CharClass::Blank);
        let s = trim_start(line, CharClass::Blank);
        marks_of_hashes(s);
        let n = hashes(s) as int;
        let rest = s.skip(n);
        let gap = trimming_the_front(rest, CharClass::Blank);
        let mid = trim_start(rest, CharClass::Blank);
        let back = trimming_the_end(mid, CharClass::HashOrBlank);
        let title = h.1;
        assert(title == trim_end(mid, CharClass::HashOrBlank));
        assert(mid[0] == title[0]);
        let first = seq![title[0]];
        let end = seq![title.last()];
        assert(!is_of(title[0], CharClass::Blank));
        assert(!is_of(title.last(), CharClass::HashOrBlank));
        assert(first[0] == title[0] && end[0] == title.last());
        assert(!crate::text::is_white_space(title[0])) by {
            if crate::text::is_white_space(title[0]) {
                assert(all_of(first, CharClass::Blank));
            }
        }
        assert(!crate::text::is_white_space(title.last()) && title.last() != '#') by {
            if crate::text::is_white_space(title.last()) || title.last() == '#' {
                assert(all_of(end, CharClass::HashOrBlank));
            }
        }
        assert(rest.len() > 0);
        assert(rest[0] == ' ');
        assert(gap.len() > 0 && gap[0] == ' ') by {
            if gap.len() == 0 {
                assert(rest =~= mid);
                assert(mid[0] == ' ');
            } else {
                assert(rest[0] == gap[0]);
            }
        }
        assert forall|i: int| 0 <= i < front.len() implies crate::text::is_white_space(
            #[trigger] front[i],
        ) by {}
        assert forall|i: int| 0 <= i < gap.len() implies crate::text::is_white_space(
            #[trigger] gap[i],
        ) by {}
        assert(is_heading(front, n, gap, title, back));
        assert(line =~= front + marks(n) + gap + title + back);
        assert(h.0 as int == n);
        assert(is_heading(front, h.0 as int, gap, h.1, back));
    }
}

/// The lines that are headings.
pub open spec fn with_heading() -> spec_fn(Seq<char>) -> bool {
    |line: Seq<char>| heading(line) is Some
}

proof fn line_rows_are_headings(page: u32, ls: Seq<Seq<char>>, n: nat)
    requires
        n <= ls.len(),
    ensures
        ({
            let found = ls.take(n as int).filter(with_heading());
            &&& line_rows(page, ls, n).len() == found.len()
            &&& forall|i: int|
                0 <= i < found.len() ==> is_row_of(
                    page,
                    found[i],
                    #[trigger] line_rows(page, ls, n)[i],
                )
        }),
    decreases n,
{
    reveal(Seq::filter);
    let now = ls.take(n as int);
    if n > 0 {
        line_rows_are_headings(page, ls, (n - 1) as nat);
        assert(now.drop_last() =~= ls.take(n - 1));
        let before = ls.take(n - 1).filter(with_heading());
        let found = now.filter(with_heading());
        let out = line_rows(page, ls, n);
        assert forall|i: int| 0 <= i < found.len() implies is_row_of(
            page,
            found[i],
            #[trigger] out[i],
        ) by {
            if i < before.len() {
                assert(found[i] == before[i]);
                assert(out[i] == line_rows(page, ls, (n - 1) as nat)[i]);
            } else {
                assert(found[i] == ls[n - 1]);
            }
        }
    }
}

/// Is this the row of the heading on a line of page `page`?
pub open spec fn is_row_of(page: u32, line: Seq<char>, row: RowView) -> bool {
    &&& heading(line) == Some((row.level, row.title))
    &&& row.destination_page == Some(page)
    &&& row.source_page == page
    &&& row.number is None
}

/// Every heading of a page comes to one row, in the order of its lines.
pub proof fn every_heading_is_a_row(p: PageExtractionView)
    requires
        p.content is Markdown,
    ensures
        ({
            let found = lines(p.content->Markdown_0).filter(with_heading());
            &&& page_rows(p).len() == found.len()
            &&& forall|i: int|
                0 <= i < found.len() ==> is_row_of(p.page, found[i], #[trigger] page_rows(p)[i])
        }),
{
    let ls = lines(p.content->Markdown_0);
    line_rows_are_headings(p.page, ls, ls.len());
    assert(ls.take(ls.len() as int) =~= ls);
}

/// The rows of several pages stand in the order of the pages.
pub proof fn rows_stand_in_page_order(pages: Seq<PageExtractionView>, p: PageExtractionView)
    ensures
        heading_rows(pages.push(p), pages.len() + 1) == heading_rows(pages, pages.len())
            + page_rows(p),
        heading_rows(pages, 0).len() == 0,
{
    heading_rows_of_the_front(pages, p, pages.len());
    assert(pages.push(p)[pages.len() as int] == p);
}

proof fn heading_rows_of_the_front(pages: Seq<PageExtractionView>, p: PageExtractionView, n: nat)
    requires
        n <= pages.len(),
    ensures
        heading_rows(pages.push(p), n) == heading_rows(pages, n),
    decreases n,
{
    if n > 0 {
        heading_rows_of_the_front(pages, p, (n - 1) as nat);
    }
}

// ---------------------------------------------------------------------------
// Entries
// ---------------------------------------------------------------------------

/// Is there a run of this identity?
pub open spec fn run_exists(d: DocView, id: ExtractionId) -> bool {
    exists|i: int| 0 <= i < d.extractions.len() && (#[trigger] d.extractions[i]).uuid == id
}

/// Is `r` a reference to this record, under the model of the first run of its identity?
pub open spec fn refers_to(d: DocView, p: PageExtractionView, r: PageRefView) -> bool {
    &&& r.page == p.page
    &&& r.page_uuid == p.page_uuid
    &&& r.extraction_uuid == p.extraction_uuid
    &&& exists|i: int|
        {
            &&& 0 <= i < d.extractions.len()
            &&& (#[trigger] d.extractions[i]).uuid == p.extraction_uuid
            &&& d.extractions[i].model == r.model
            &&& forall|j: int| 0 <= j < i ==> (#[trigger] d.extractions[j]).uuid != p.extraction_uuid
        }
}

/// The Markdown records of a page whose run is there.
pub open spec fn of_page(d: DocView, page: u32) -> spec_fn(PageExtractionView) -> bool {
    |p: PageExtractionView|
        p.page == page && p.content is Markdown && run_exists(d, p.extraction_uuid)
}

proof fn first_run(d: DocView, id: ExtractionId, k: int)
    requires
        0 <= k < d.extractions.len(),
        d.extractions[k].uuid == id,
    ensures
        exists|i: int| crate::ir::first_extraction(d, id, i),
    decreases k,
{
    if forall|j: int| 0 <= j < k ==> (#[trigger] d.extractions[j]).uuid != id {
        assert(crate::ir::first_extraction(d, id, k));
    } else {
        let j = choose|j: int| 0 <= j < k && (#[trigger] d.extractions[j]).uuid == id;
        first_run(d, id, j);
    }
}

/// Every Markdown record of the page whose run is there gets a reference, in their order, and
/// nothing else does.
pub proof fn every_record_is_referred_to(d: DocView, records: Seq<PageExtractionView>, page: u32)
    ensures
        ({
            let mine = records.filter(of_page(d, page));
            &&& refs_to(d, records, page).len() == mine.len()
            &&& forall|i: int|
                0 <= i < mine.len() ==> refers_to(
                    d,
                    mine[i],
                    #[trigger] refs_to(d, records, page)[i],
                )
        }),
    decreases records.len(),
{
    reveal(Seq::filter);
    if records.len() > 0 {
        let init = records.drop_last();
        every_record_is_referred_to(d, init, page);
        let p = records.last();
        let before = init.filter(of_page(d, page));
        let mine = records.filter(of_page(d, page));
        let out = refs_to(d, records, page);
        if run_exists(d, p.extraction_uuid) {
            let k = choose|k: int|
                0 <= k < d.extractions.len() && (#[trigger] d.extractions[k]).uuid
                    == p.extraction_uuid;
            first_run(d, p.extraction_uuid, k);
            let i = choose|i: int| crate::ir::first_extraction(d, p.extraction_uuid, i);
            assert(d.extractions[i].uuid == p.extraction_uuid);
        }
        assert forall|i: int| 0 <= i < mine.len() implies refers_to(
            d,
            mine[i],
            #[trigger] out[i],
        ) by {
            if i < before.len() {
                assert(mine[i] == before[i]);
                assert(out[i] == refs_to(d, init, page)[i]);
            } else {
                assert(mine[i] == p);
            }
        }
    }
}

/// Every row comes to one entry, in their order: with its title and level, made by the run,
/// below the nearest earlier entry of a smaller level, and with references to the records of
/// the page that the row points to, or of the page it was found on where it points to none.
pub proof fn entries_say_what_their_rows_say(
    rows: Seq<RowView>,
    d: DocView,
    built_by: ExtractionId,
    entries: Seq<TocEntryView>,
    i: int,
)
    requires
        entries_match(rows, d, built_by, entries),
        0 <= i < rows.len(),
    ensures
        entries.len() == rows.len(),
        entries[i].title == rows[i].title,
        entries[i].level == rows[i].level,
        entries[i].built_by == built_by,
        match entries[i].parent {
            Some(id) => exists|j: int|
                {
                    &&& 0 <= j < i
                    &&& (#[trigger] entries[j]).id == id
                    &&& rows[j].level < rows[i].level
                    &&& forall|k: int| j < k < i ==> (#[trigger] rows[k]).level >= rows[i].level
                },
            None => forall|k: int| 0 <= k < i ==> (#[trigger] rows[k]).level >= rows[i].level,
        },
        ({
            let page = match rows[i].destination_page {
                Some(p) => p,
                None => rows[i].source_page,
            };
            let mine = d.extracted_pages.filter(of_page(d, page));
            &&& entries[i].page_refs.len() == mine.len()
            &&& forall|k: int|
                0 <= k < mine.len() ==> refers_to(d, mine[k], #[trigger] entries[i].page_refs[k])
        }),
{
    assert(entry_matches(rows, d, built_by, entries, i));
    parent_row_is_nearest(rows, i);
    let page = match rows[i].destination_page {
        Some(p) => p,
        None => rows[i].source_page,
    };
    every_record_is_referred_to(d, d.extracted_pages, page);
}

proof fn rows_hold_the_rows_of_a_page(pages: Seq<PageExtractionView>, n: nat, k: int, i: int)
    requires
        0 <= k < n <= pages.len(),
        0 <= i < page_rows(pages[k]).len(),
    ensures
        heading_rows(pages, n).contains(page_rows(pages[k])[i]),
    decreases n,
{
    let s = heading_rows(pages, n);
    let before = heading_rows(pages, (n - 1) as nat);
    let row = page_rows(pages[k])[i];
    if k == n - 1 {
        assert(s[before.len() + i] == row);
    } else {
        rows_hold_the_rows_of_a_page(pages, (n - 1) as nat, k, i);
        let j = choose|j: int| 0 <= j < before.len() && before[j] == row;
        assert(s[j] == row);
    }
}

proof fn kept_lines_are_there(ls: Seq<Seq<char>>, l: int) -> (i: int)
    requires
        0 <= l < ls.len(),
        heading(ls[l]) is Some,
    ensures
        0 <= i < ls.filter(with_heading()).len(),
        ls.filter(with_heading())[i] == ls[l],
{
    ls.lemma_filter_contains(with_heading(), l);
    let found = ls.filter(with_heading());
    assert(found.contains(ls[l]));
    choose|i: int| 0 <= i < found.len() && found[i] == ls[l]
}

/// A build from headings has an entry for every heading of every record that counts, with its
/// title and level, and is recorded as what it is, with the range of its pages.
pub proof fn builds_hold_every_heading(
    d: DocView,
    first: u32,
    last: u32,
    b: TocBuildResult,
    r: int,
    l: int,
)
    requires
        is_heading_build(d, first, last, b),
        counts(d.extracted_pages, first, last, r),
        0 <= l < lines(d.extracted_pages[r].content->Markdown_0).len(),
        heading(lines(d.extracted_pages[r].content->Markdown_0)[l]) is Some,
    ensures
        ({
            let h = heading(lines(d.extracted_pages[r].content->Markdown_0)[l])->Some_0;
            exists|j: int|
                {
                    &&& 0 <= j < b.entries@.len()
                    &&& (#[trigger] views(b.entries@)[j]).level == h.0
                    &&& views(b.entries@)[j].title == h.1
                    &&& views(b.entries@)[j].built_by == b.extraction@.uuid
                }
        }),
        b.extraction@.model == "toc-heuristic@v1"@,
        b.extraction@.params == range_params(Seq::empty(), first, last),
        b.issues@.len() == 0,
{
    let records = d.extracted_pages;
    let pages = pass1_pages(records, first, last);
    let p = records[r];
    pages_are_those_that_count(records, first, last, p);
    assert(pages.contains(p));
    let k = choose|k: int| 0 <= k < pages.len() && pages[k] == p;
    let ls = lines(p.content->Markdown_0);
    every_heading_is_a_row(p);
    let i = kept_lines_are_there(ls, l);
    assert(is_row_of(p.page, ls.filter(with_heading())[i], page_rows(p)[i]));
    rows_hold_the_rows_of_a_page(pages, pages.len(), k, i);
    let rows = heading_rows(pages, pages.len());
    let row = page_rows(p)[i];
    let j = choose|j: int| 0 <= j < rows.len() && rows[j] == row;
    let entries = views(b.entries@);
    entries_say_what_their_rows_say(rows, d, b.extraction@.uuid, entries, j);
    assert(entries[j].title == row.title);
}

/// An appended build leaves what was there: its run stands behind the runs and its entries
/// behind the entries.
pub proof fn builds_are_appended(d: DocView, run: ExtractionView, entries: Seq<TocEntryView>)
    ensures
        with_toc(d, run, entries).extractions == d.extractions.push(run),
        with_toc(d, run, entries).toc == d.toc + entries,
        with_toc(d, run, entries).extracted_pages == d.extracted_pages,
        with_toc(d, run, entries).content_hash == d.content_hash,
        with_toc(d, run, entries).schema_version == d.schema_version,
{
}

/// A plan is made from one page at least.
pub proof fn plans_need_a_page(
    d: DocView,
    first: u32,
    last: u32,
    model: Seq<char>,
    temperature: Seq<char>,
    plan: LlmPlan,
)
    requires
        is_llm_plan(d, first, last, model, temperature, plan),
    ensures
        exists|i: int| #[trigger] counts(d.extracted_pages, first, last, i),
        plan.extraction@.params == llm_params(temperature, first, last),
{
    let records = d.extracted_pages;
    let pages = pass1_pages(records, first, last);
    assert(pages.contains(pages[0]));
    pages_are_those_that_count(records, first, last, pages[0]);
}

} // verus!
