//! What is promised of the texts on screen, of the pages around the current one,
//! and of the keys.

use crate::mcp::extract::{epub_chapter_text, epub_page_text, joined, pdf_neighbor_window};
use crate::mcp::extract::{screen_lines, screen_top, snapshot_key, texts};
use crate::mcp::extract::{RenderedLine, SnapshotKey};
use crate::mcp::protocol::SnapshotFormat;
use std::ops::RangeInclusive;
use vstd::prelude::*;

verus! {

/// A text cut at its line feeds.
pub open spec fn split_lines(text: Seq<char>) -> Seq<Seq<char>>
    decreases text.len(),
{
    if text.len() == 0 {
        seq![Seq::empty()]
    } else {
        let before = split_lines(text.drop_last());
        if text.last() == '\n' {
            before.push(Seq::empty())
        } else {
            before.drop_last().push(before.last().push(text.last()))
        }
    }
}

proof fn lemma_split_lines_of_line(line: Seq<char>)
    requires
        !line.contains('\n'),
    ensures
        split_lines(line) == seq![line],
    decreases line.len(),
{
    if line.len() > 0 {
        let before = line.drop_last();
        assert(line.contains(line.last()));
        assert forall|c: char| before.contains(c) implies line.contains(c) by {
            let i = choose|i: int| 0 <= i < before.len() && before[i] == c;
            assert(line[i] == c);
        }
        lemma_split_lines_of_line(before);
        assert(before.push(line.last()) =~= line);
        assert(split_lines(line) =~= seq![line]);
    } else {
        assert(line =~= Seq::empty());
    }
}

proof fn lemma_split_lines_of_sum(text: Seq<char>, line: Seq<char>)
    requires
        !line.contains('\n'),
    ensures
        split_lines(text.push('\n') + line) == split_lines(text).push(line),
    decreases line.len(),
{
    let all = text.push('\n') + line;
    if line.len() > 0 {
        let before = line.drop_last();
        assert(line.contains(line.last()));
        assert forall|c: char| before.contains(c) implies line.contains(c) by {
            let i = choose|i: int| 0 <= i < before.len() && before[i] == c;
            assert(line[i] == c);
        }
        lemma_split_lines_of_sum(text, before);
        assert(all.drop_last() =~= text.push('\n') + before);
        assert(all.last() == line.last());
        assert(before.push(line.last()) =~= line);
        assert(split_lines(all) =~= split_lines(text).push(line));
    } else {
        assert(all =~= text.push('\n'));
        assert(all.drop_last() =~= text);
        assert(line =~= Seq::empty());
    }
}

proof fn lemma_split_joined(lines: Seq<Seq<char>>)
    requires
        lines.len() > 0,
        forall|i: int| 0 <= i < lines.len() ==> !(#[trigger] lines[i]).contains('\n'),
    ensures
        split_lines(joined(lines)) == lines,
    decreases lines.len(),
{
    let before = lines.drop_last();
    assert(!lines[lines.len() - 1].contains('\n'));
    if before.len() == 0 {
        lemma_split_lines_of_line(lines.last());
        assert(lines =~= seq![lines.last()]);
    } else {
        assert forall|i: int| 0 <= i < before.len() implies !(#[trigger] before[i]).contains(
            '\n',
        ) by {
            assert(before[i] == lines[i]);
        }
        lemma_split_joined(before);
        lemma_split_lines_of_sum(joined(before), lines.last());
        assert(before.push(lines.last()) =~= lines);
    }
}

/// The text of a chapter whose lines have no line feeds in them, cut at its line
/// feeds, is those lines again, blank ones included.
pub proof fn chapter_text_splits_into_its_lines(lines: &[RenderedLine], text: String)
    requires
        call_ensures(epub_chapter_text, (lines,), text),
        lines@.len() > 0,
        forall|i: int|
            0 <= i < lines@.len() ==> !(#[trigger] lines@[i]).raw_text@.contains('\n'),
    ensures
        split_lines(text@) == Seq::new(lines@.len(), |i: int| lines@[i].raw_text@),
{
    let all = texts(lines@);
    assert forall|i: int| 0 <= i < all.len() implies !(#[trigger] all[i]).contains('\n') by {
        assert(all[i] == lines@[i].raw_text@);
    }
    lemma_split_joined(all);
    assert(all =~= Seq::new(lines@.len(), |i: int| lines@[i].raw_text@));
}

/// Where a line starts in the text of its chapter: behind each line before it
/// comes one line feed.
pub open spec fn line_start(lines: Seq<RenderedLine>, index: int) -> int
    decreases index,
{
    if index <= 0 {
        0
    } else {
        line_start(lines, index - 1) + lines[index - 1].raw_text@.len() + 1
    }
}

proof fn lemma_line_start_of_part(lines: Seq<RenderedLine>, index: int)
    requires
        0 <= index < lines.len(),
    ensures
        line_start(lines.drop_last(), index) == line_start(lines, index),
        0 <= line_start(lines, index),
    decreases index,
{
    if index > 0 {
        lemma_line_start_of_part(lines, index - 1);
    }
}

proof fn lemma_lines_in_place(lines: Seq<RenderedLine>, index: int)
    requires
        0 <= index < lines.len(),
    ensures
        ({
            let text = joined(texts(lines));
            let line = lines[index].raw_text@;
            let start = line_start(lines, index);
            &&& 0 <= start
            &&& start + line.len() <= text.len()
            &&& text.subrange(start, start + line.len()) == line
            &&& index > 0 ==> start > 0 && text[start - 1] == '\n'
            &&& text.len() + 1 == line_start(lines, lines.len() as int)
        }),
    decreases lines.len(),
{
    let before = lines.drop_last();
    let last = lines.last().raw_text@;
    let text = joined(texts(lines));
    assert(texts(lines).drop_last() =~= texts(before));
    assert(texts(lines).last() == last);
    lemma_line_start_of_part(lines, index);
    lemma_line_start_of_part(lines, lines.len() - 1);
    if before.len() == 0 {
        assert(text =~= last);
        assert(text.subrange(0, last.len() as int) =~= last);
    } else {
        lemma_lines_in_place(before, before.len() - 1);
        let earlier = joined(texts(before));
        assert(text == earlier.push('\n') + last);
        if index < before.len() {
            lemma_lines_in_place(before, index);
            let line = lines[index].raw_text@;
            let start = line_start(lines, index);
            assert(text.subrange(start, start + line.len()) =~= earlier.subrange(
                start,
                start + line.len(),
            ));
        } else {
            let start = line_start(lines, index);
            assert(start == earlier.len() + 1);
            assert(text.subrange(start, start + last.len()) =~= last);
        }
    }
}

/// Each line stands in the text of its chapter where the lines before it and the
/// line feeds behind them end, with a line feed before it; and the text ends with
/// the last line.
pub proof fn chapter_text_has_each_line_in_its_place(
    lines: &[RenderedLine],
    index: int,
    text: String,
)
    requires
        call_ensures(epub_chapter_text, (lines,), text),
        0 <= index < lines@.len(),
    ensures
        ({
            let line = lines@[index].raw_text@;
            let start = line_start(lines@, index);
            &&& 0 <= start
            &&& start + line.len() <= text@.len()
            &&& text@.subrange(start, start + line.len()) == line
            &&& index > 0 ==> start > 0 && text@[start - 1] == '\n'
            &&& text@.len() + 1 == line_start(lines@, lines@.len() as int)
        }),
{
    lemma_lines_in_place(lines@, index);
}

/// A chapter without lines has no text.
pub proof fn empty_chapters_have_no_text(lines: &[RenderedLine], text: String)
    requires
        call_ensures(epub_chapter_text, (lines,), text),
        lines@.len() == 0,
    ensures
        text@.len() == 0,
{
}

proof fn lemma_joined_sum(first: Seq<Seq<char>>, second: Seq<Seq<char>>)
    requires
        first.len() > 0,
        second.len() > 0,
    ensures
        joined(first + second) == joined(first) + seq!['\n'] + joined(second),
    decreases second.len(),
{
    let all = first + second;
    let rest = second.drop_last();
    assert(all.last() == second.last());
    assert(all.drop_last() =~= first + rest);
    if rest.len() == 0 {
        assert(first + rest =~= first);
    } else {
        lemma_joined_sum(first, rest);
    }
    assert(joined(all) =~= joined(first) + seq!['\n'] + joined(second));
}

/// The text of two runs of lines is the text of the one, a line feed, and the text
/// of the other.
pub proof fn chapter_text_of_two_parts(
    first: &[RenderedLine],
    second: &[RenderedLine],
    both: &[RenderedLine],
    first_text: String,
    second_text: String,
    text: String,
)
    requires
        call_ensures(epub_chapter_text, (first,), first_text),
        call_ensures(epub_chapter_text, (second,), second_text),
        call_ensures(epub_chapter_text, (both,), text),
        first@.len() > 0,
        second@.len() > 0,
        both@ == first@ + second@,
    ensures
        text@ == first_text@ + seq!['\n'] + second_text@,
{
    assert(texts(both@) =~= texts(first@) + texts(second@));
    lemma_joined_sum(texts(first@), texts(second@));
}

/// The lower of two numbers.
pub open spec fn lower(a: int, b: int) -> int {
    if a < b {
        a
    } else {
        b
    }
}

proof fn lemma_screen_top_by_remainder(scroll_offset: int, viewport_height: int)
    requires
        0 <= scroll_offset,
        0 < viewport_height,
    ensures
        screen_top(scroll_offset, viewport_height) == scroll_offset - scroll_offset
            % viewport_height,
        0 <= scroll_offset % viewport_height < viewport_height,
        0 <= screen_top(scroll_offset, viewport_height) <= scroll_offset,
{
    vstd::arithmetic::div_mod::lemma_fundamental_div_mod(scroll_offset, viewport_height);
    vstd::arithmetic::div_mod::lemma_mod_bound(scroll_offset, viewport_height);
    vstd::arithmetic::mul::lemma_mul_is_commutative(
        scroll_offset / viewport_height,
        viewport_height,
    );
    assert(0 <= scroll_offset - scroll_offset % viewport_height) by (nonlinear_arith)
        requires
            0 <= scroll_offset,
            0 < viewport_height,
    ;
}

/// A screen has as many lines as fit, or as the chapter has left, and each of its
/// rows is the chapter's line that far below the top of the screen.
pub proof fn screen_has_the_rows_below_its_top(
    lines: Seq<Seq<char>>,
    scroll_offset: int,
    viewport_height: int,
)
    requires
        0 <= scroll_offset,
        0 < viewport_height,
        scroll_offset - scroll_offset % viewport_height <= lines.len(),
    ensures
        ({
            let top = scroll_offset - scroll_offset % viewport_height;
            let screen = screen_lines(lines, scroll_offset, viewport_height);
            &&& screen.len() == lower(viewport_height, lines.len() - top)
            &&& forall|row: int| 0 <= row < screen.len() ==> screen[row] == lines[top + row]
        }),
{
    lemma_screen_top_by_remainder(scroll_offset, viewport_height);
}

/// A page reads as the chapter would that had the lines of the screen alone: those
/// from the screen's top down, as many as fit or as there are left.
pub proof fn page_text_is_the_text_of_its_screen(
    lines: &[RenderedLine],
    rows: &[RenderedLine],
    scroll_offset: usize,
    viewport_height: usize,
    page: String,
    text: String,
)
    requires
        call_ensures(epub_page_text, (lines, scroll_offset, viewport_height), page),
        call_ensures(epub_chapter_text, (rows,), text),
        0 < viewport_height,
        scroll_offset - scroll_offset % viewport_height <= lines@.len(),
        rows@ == lines@.subrange(
            scroll_offset - scroll_offset % viewport_height,
            lower(
                scroll_offset - scroll_offset % viewport_height + viewport_height,
                lines@.len() as int,
            ),
        ),
    ensures
        page@ == text@,
{
    let offset = scroll_offset as int;
    let height = viewport_height as int;
    lemma_screen_top_by_remainder(offset, height);
    screen_has_the_rows_below_its_top(texts(lines@), offset, height);
    assert(texts(rows@) =~= screen_lines(texts(lines@), offset, height));
}

/// Without a line to show, or a row to show it on, a page has no text.
pub proof fn pages_without_room_or_lines_have_no_text(
    lines: &[RenderedLine],
    scroll_offset: usize,
    viewport_height: usize,
    page: String,
)
    requires
        call_ensures(epub_page_text, (lines, scroll_offset, viewport_height), page),
        lines@.len() == 0 || viewport_height == 0,
    ensures
        page@.len() == 0,
{
}

/// The pages of a window are those of the book that are at most `window` pages
/// away from the current one, and no others.
pub proof fn window_holds_the_pages_in_reach(
    current: usize,
    total: usize,
    window: usize,
    pages: RangeInclusive<usize>,
    page: usize,
)
    requires
        call_ensures(pdf_neighbor_window, (current, total, window), pages),
        page < total,
        current - window < total,
    ensures
        pages@.start <= page <= pages@.end <==> current - window <= page <= current + window,
{
}

/// A window is a run of pages of the book, and of the last one alone where none is
/// in reach; of a book without pages it is the first.
pub proof fn window_is_a_run_of_pages(
    current: usize,
    total: usize,
    window: usize,
    pages: RangeInclusive<usize>,
)
    requires
        call_ensures(pdf_neighbor_window, (current, total, window), pages),
    ensures
        !pages@.exhausted,
        pages@.start <= pages@.end,
        total > 0 ==> pages@.end < total,
        0 < total <= current - window ==> pages@.start == total - 1,
        total == 0 ==> pages@.start == 0 && pages@.end == 0,
{
}

/// The keys of two states are equal exactly where the states agree in every part.
pub proof fn keys_of_states_are_equal_exactly_for_equal_states(
    a: (SnapshotFormat, usize, Option<usize>, Option<usize>, u64),
    b: (SnapshotFormat, usize, Option<usize>, Option<usize>, u64),
    a_key: SnapshotKey,
    b_key: SnapshotKey,
)
    requires
        call_ensures(snapshot_key, a, a_key),
        call_ensures(snapshot_key, b, b_key),
    ensures
        a_key == b_key <==> a == b,
{
    crate::mcp::extract::keys_are_equal_exactly_for_equal_states(a_key, b_key);
}

} // verus!
