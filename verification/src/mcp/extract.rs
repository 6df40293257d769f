//! The text on screen, the text around it, and when either has changed.

use crate::mcp::protocol::SnapshotFormat;
use std::ops::RangeInclusive;
use vstd::prelude::*;

verus! {

/// One line of a chapter as it is laid out on screen.
#[derive(Debug, Clone)]
pub struct RenderedLine {
    /// The plain text of the line.
    pub raw_text: String,
}

impl View for RenderedLine {
    type V = Seq<char>;

    open spec fn view(&self) -> Seq<char> {
        self.raw_text@
    }
}

/// The texts of a run of lines.
pub open spec fn texts(lines: Seq<RenderedLine>) -> Seq<Seq<char>> {
    lines.map_values(|line: RenderedLine| line@)
}

/// The lines one after the other, a line feed between each and the next.
pub open spec fn joined(lines: Seq<Seq<char>>) -> Seq<char>
    decreases lines.len(),
{
    if lines.len() == 0 {
        Seq::empty()
    } else {
        let last = lines.last();
        let before = lines.drop_last();
        if before.len() == 0 {
            last
        } else {
            joined(before).push('\n') + last
        }
    }
}

/// The index of the first line of the screen that a scroll offset falls on.
pub open spec fn screen_top(scroll_offset: int, viewport_height: int) -> int {
    (scroll_offset / viewport_height) * viewport_height
}

/// The lines of the screen that a scroll offset falls on; none where there is
/// nothing to show or nowhere to show it.
pub open spec fn screen_lines(
    lines: Seq<Seq<char>>,
    scroll_offset: int,
    viewport_height: int,
) -> Seq<Seq<char>> {
    if lines.len() == 0 || viewport_height == 0 {
        Seq::empty()
    } else {
        let top = screen_top(scroll_offset, viewport_height);
        let bottom = if top + viewport_height < lines.len() {
            top + viewport_height
        } else {
            lines.len() as int
        };
        lines.subrange(top, bottom)
    }
}

/// Joins the texts of the lines from `from` up to `to`.
fn join_range(lines: &[RenderedLine], from: usize, to: usize) -> (text: String)
    requires
        from <= to <= lines@.len(),
    ensures
        text@ == joined(texts(lines@).subrange(from as int, to as int)),
{
    let ghost all = texts(lines@);
    let mut text = String::new();
    let mut next: usize = from;
    while next < to
        invariant
            from <= next <= to <= lines@.len(),
            all == texts(lines@),
            text@ == joined(all.subrange(from as int, next as int)),
        decreases to - next,
    {
        if from < next {
            text.append("\n");
        }
        text.append(lines[next].raw_text.as_str());
        proof {
            reveal_strlit("\n");
            let done = all.subrange(from as int, next as int);
            let longer = all.subrange(from as int, next + 1);
            assert(longer.drop_last() =~= done);
            assert(longer.last() == lines@[next as int]@);
            assert("\n"@ =~= seq!['\n']);
            assert(joined(done).push('\n') =~= joined(done) + "\n"@);
        }
        next += 1;
    }
    text
}

/// Whole current chapter: all rendered lines joined by newline.
pub fn epub_chapter_text(lines: &[RenderedLine]) -> (text: String)
    ensures
        text@ == joined(texts(lines@)),
{
    let text = join_range(lines, 0, lines.len());
    assert(texts(lines@).subrange(0, lines@.len() as int) =~= texts(lines@));
    text
}

/// Current quantized viewport screenful.
///
/// The screen starts at `(scroll_offset / viewport_height) * viewport_height`,
/// so minor scrolling within the same screen returns identical text. A screen
/// may start where the chapter ends, but not past it.
pub fn epub_page_text(
    lines: &[RenderedLine],
    scroll_offset: usize,
    viewport_height: usize,
) -> (text: String)
    requires
        lines@.len() == 0 || viewport_height == 0 || screen_top(
            scroll_offset as int,
            viewport_height as int,
        ) <= lines@.len(),
    ensures
        text@ == joined(
            screen_lines(texts(lines@), scroll_offset as int, viewport_height as int),
        ),
{
    if lines.is_empty() || viewport_height == 0 {
        return String::new();
    }
    proof {
        lemma_screen_top(scroll_offset as int, viewport_height as int);
    }
    let top: usize = (scroll_offset / viewport_height) * viewport_height;
    let bottom: usize = if viewport_height < lines.len() - top {
        top + viewport_height
    } else {
        lines.len()
    };
    join_range(lines, top, bottom)
}

/// A screen starts at most a screen before the offset and never after it.
proof fn lemma_screen_top(scroll_offset: int, viewport_height: int)
    requires
        0 <= scroll_offset,
        0 < viewport_height,
    ensures
        0 <= screen_top(scroll_offset, viewport_height) <= scroll_offset,
        scroll_offset < screen_top(scroll_offset, viewport_height) + viewport_height,
{
    let screen = scroll_offset / viewport_height;
    assert(0 <= screen * viewport_height <= scroll_offset && scroll_offset < screen
        * viewport_height + viewport_height) by (nonlinear_arith)
        requires
            screen == scroll_offset / viewport_height,
            0 <= scroll_offset,
            0 < viewport_height,
    ;
}

/// The page of a book of `total` pages that is nearest to `page`.
pub open spec fn nearest_page(page: int, total: int) -> int {
    if page < 0 {
        0
    } else if page < total {
        page
    } else {
        total - 1
    }
}

/// Inclusive page range `[start, end]` for current page +- `window`, clamped to
/// `[0, total)`. A book without pages has the range of its first page.
pub fn pdf_neighbor_window(current: usize, total: usize, window: usize) -> (pages: RangeInclusive<
    usize,
>)
    ensures
        !pages@.exhausted,
        total == 0 ==> pages@.start == 0 && pages@.end == 0,
        total > 0 ==> pages@.start == nearest_page(current - window, total as int),
        total > 0 ==> pages@.end == nearest_page(current + window, total as int),
{
    if total == 0 {
        return RangeInclusive::new(0, 0);
    }
    let last: usize = total - 1;
    let low: usize = current.saturating_sub(window);
    let high: usize = current.saturating_add(window);
    let start: usize = if low < last {
        low
    } else {
        last
    };
    let end: usize = if high < last {
        high
    } else {
        last
    };
    RangeInclusive::new(start, end)
}

/// Cheap state key. The snapshot is rebuilt only when this changes.
///
/// It holds the chapter, the page and the screen, whichever the format uses.
/// `generation` is the reader's render cache generation; it bumps on any content
/// change at the same position (comment edit, raw-HTML toggle, image settle), so
/// the snapshot refreshes even when the position is unchanged.
#[derive(Debug, Clone, PartialEq, Eq, Structural)]
pub struct SnapshotKey {
    format: SnapshotFormat,
    chapter_index: usize,
    page_number: Option<usize>,
    screen_index: Option<usize>,
    generation: u64,
}

/// The state that a key stands for.
pub struct ReaderState {
    pub format: SnapshotFormat,
    pub chapter_index: usize,
    pub page_number: Option<usize>,
    pub screen_index: Option<usize>,
    pub generation: u64,
}

impl View for SnapshotKey {
    type V = ReaderState;

    closed spec fn view(&self) -> ReaderState {
        ReaderState {
            format: self.format,
            chapter_index: self.chapter_index,
            page_number: self.page_number,
            screen_index: self.screen_index,
            generation: self.generation,
        }
    }
}

/// The key of a state.
pub fn snapshot_key(
    format: SnapshotFormat,
    chapter_index: usize,
    page_number: Option<usize>,
    screen_index: Option<usize>,
    generation: u64,
) -> (key: SnapshotKey)
    ensures
        key@ == (ReaderState { format, chapter_index, page_number, screen_index, generation }),
{
    SnapshotKey { format, chapter_index, page_number, screen_index, generation }
}

/// Two keys are equal exactly when they stand for the same state, so a
/// change of any part of it, the generation included, changes the key.
pub proof fn keys_are_equal_exactly_for_equal_states(a: SnapshotKey, b: SnapshotKey)
    ensures
        a == b <==> a@ == b@,
{
}

/// Scrolling within one screen shows the same lines.
pub proof fn scrolling_within_a_screen_keeps_the_page(
    lines: Seq<Seq<char>>,
    first: int,
    second: int,
    viewport_height: int,
)
    requires
        0 < viewport_height,
        first / viewport_height == second / viewport_height,
    ensures
        screen_lines(lines, first, viewport_height) == screen_lines(
            lines,
            second,
            viewport_height,
        ),
{
}

/// A screen is never longer than the viewport is high, nor longer than the
/// chapter.
pub proof fn screen_fits_the_viewport(
    lines: Seq<Seq<char>>,
    scroll_offset: int,
    viewport_height: int,
)
    requires
        0 <= scroll_offset,
        0 <= viewport_height,
        lines.len() == 0 || viewport_height == 0 || screen_top(scroll_offset, viewport_height)
            <= lines.len(),
    ensures
        screen_lines(lines, scroll_offset, viewport_height).len() <= viewport_height,
        screen_lines(lines, scroll_offset, viewport_height).len() <= lines.len(),
{
    if viewport_height > 0 {
        lemma_screen_top(scroll_offset, viewport_height);
    }
}

/// The line that a reader has scrolled to is on the screen, as many lines
/// below its top as it is below it in the chapter.
pub proof fn screen_shows_the_scrolled_line(
    lines: Seq<Seq<char>>,
    scroll_offset: int,
    viewport_height: int,
)
    requires
        0 <= scroll_offset < lines.len(),
        0 < viewport_height,
    ensures
        ({
            let screen = screen_lines(lines, scroll_offset, viewport_height);
            let row = scroll_offset - screen_top(scroll_offset, viewport_height);
            0 <= row < screen.len() && screen[row] == lines[scroll_offset]
        }),
{
    lemma_screen_top(scroll_offset, viewport_height);
}

/// A chapter that fits on one screen reads the same as a page and as a
/// chapter.
pub proof fn short_chapter_is_one_page(
    lines: Seq<Seq<char>>,
    scroll_offset: int,
    viewport_height: int,
)
    requires
        0 <= scroll_offset < viewport_height,
        lines.len() <= viewport_height,
    ensures
        screen_lines(lines, scroll_offset, viewport_height) == lines,
{
    lemma_screen_top(scroll_offset, viewport_height);
    assert(scroll_offset / viewport_height == 0) by (nonlinear_arith)
        requires
            0 <= scroll_offset < viewport_height,
    ;
    assert(screen_lines(lines, scroll_offset, viewport_height) =~= lines);
}

/// The pages of a window are pages of the book, they are at most `window`
/// pages to either side of the current one, and it is among them.
pub proof fn window_surrounds_the_current_page(current: int, total: int, window: int)
    requires
        0 <= current < total,
        0 <= window,
    ensures
        0 <= nearest_page(current - window, total) <= current,
        current <= nearest_page(current + window, total) < total,
        nearest_page(current + window, total) - nearest_page(current - window, total) <= 2
            * window,
{
}

/// Whatever the current page is taken to be, a window is a run of pages of
/// the book, start before end.
pub proof fn window_stays_in_the_book(current: int, total: int, window: int)
    requires
        0 < total,
        0 <= window,
    ensures
        0 <= nearest_page(current - window, total),
        nearest_page(current - window, total) <= nearest_page(current + window, total),
        nearest_page(current + window, total) < total,
{
}

} // verus!
