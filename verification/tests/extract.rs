use bookokrat::mcp::extract::{
    epub_chapter_text, epub_page_text, pdf_neighbor_window, snapshot_key, RenderedLine,
};
use bookokrat::mcp::protocol::SnapshotFormat;

fn line(text: &str) -> RenderedLine {
    RenderedLine {
        raw_text: text.into(),
    }
}

#[test]
fn chapter_text_joins_all_lines() {
    let lines = vec![line("a"), line("b"), line("c")];
    assert_eq!(epub_chapter_text(&lines), "a\nb\nc");
}

#[test]
fn page_text_quantizes_to_screen_top() {
    // 10 lines, viewport height 4, scrolled to offset 5.
    // quantized chunk_start = (5/4)*4 = 4 -> lines 4,5,6,7
    let lines: Vec<_> = (0..10).map(|i| line(&format!("L{i}"))).collect();
    let text = epub_page_text(&lines, 5, 4);
    assert_eq!(text, "L4\nL5\nL6\nL7");
}

#[test]
fn page_text_same_chunk_for_nearby_scroll() {
    let lines: Vec<_> = (0..10).map(|i| line(&format!("L{i}"))).collect();
    // offsets 4,5,6,7 all quantize to chunk_start 4
    for off in [4, 5, 6, 7] {
        assert_eq!(
            epub_page_text(&lines, off, 4),
            "L4\nL5\nL6\nL7",
            "off={off}"
        );
    }
}

#[test]
fn page_text_clamps_at_end_of_chapter() {
    let lines: Vec<_> = (0..6).map(|i| line(&format!("L{i}"))).collect();
    // 6 lines, height 4, offset 4 -> chunk_start 4 -> only L4,L5 remain
    assert_eq!(epub_page_text(&lines, 4, 4), "L4\nL5");
}

#[test]
fn page_text_empty_chapter() {
    assert_eq!(epub_page_text(&[], 0, 4), "");
}

#[test]
fn pdf_window_mid_book() {
    assert_eq!(pdf_neighbor_window(5, 10, 2), 3..=7);
}

#[test]
fn pdf_window_clamps_at_start() {
    assert_eq!(pdf_neighbor_window(0, 10, 2), 0..=2);
    assert_eq!(pdf_neighbor_window(1, 10, 2), 0..=3);
}

#[test]
fn pdf_window_clamps_at_end() {
    assert_eq!(pdf_neighbor_window(9, 10, 2), 7..=9);
    assert_eq!(pdf_neighbor_window(8, 10, 2), 6..=9);
}

#[test]
fn pdf_window_when_window_exceeds_total() {
    assert_eq!(pdf_neighbor_window(1, 3, 5), 0..=2);
}

#[test]
fn snapshot_key_differs_on_chapter_change() {
    let k0 = snapshot_key(SnapshotFormat::Epub, 1, None, Some(2), 0);
    let k1 = snapshot_key(SnapshotFormat::Epub, 2, None, Some(2), 0);
    assert_ne!(k0, k1);
}

#[test]
fn snapshot_key_same_within_screen_chunk() {
    let k = snapshot_key(SnapshotFormat::Epub, 1, None, Some(2), 0);
    assert_eq!(k, snapshot_key(SnapshotFormat::Epub, 1, None, Some(2), 0));
}

#[test]
fn snapshot_key_differs_on_generation_change() {
    // Same position, but content re-rendered (e.g. a comment was added).
    let k0 = snapshot_key(SnapshotFormat::Epub, 1, None, Some(2), 0);
    let k1 = snapshot_key(SnapshotFormat::Epub, 1, None, Some(2), 1);
    assert_ne!(k0, k1);
}

#[test]
fn chapter_text_of_nothing_is_empty() {
    assert_eq!(epub_chapter_text(&[]), "");
    assert_eq!(epub_chapter_text(&[line("only")]), "only");
    assert_eq!(epub_chapter_text(&[line(""), line("")]), "\n");
}

#[test]
fn page_text_without_a_viewport_is_empty() {
    assert_eq!(epub_page_text(&[line("a")], 3, 0), "");
}

#[test]
fn page_text_of_a_screen_that_starts_at_the_end_is_empty() {
    let lines: Vec<_> = (0..4).map(|i| line(&format!("L{i}"))).collect();
    assert_eq!(epub_page_text(&lines, 4, 4), "");
    assert_eq!(epub_page_text(&lines, 5, 2), "");
}

#[test]
fn page_text_on_a_huge_viewport_is_the_chapter() {
    let lines: Vec<_> = (0..4).map(|i| line(&format!("L{i}"))).collect();
    assert_eq!(
        epub_page_text(&lines, 3, usize::MAX),
        epub_chapter_text(&lines)
    );
}

#[test]
fn page_shows_the_line_that_was_scrolled_to() {
    let lines: Vec<_> = (0..10).map(|i| line(&format!("L{i}"))).collect();
    for off in 0..10 {
        let text = epub_page_text(&lines, off, 3);
        let shown: Vec<&str> = text.split('\n').collect();
        assert_eq!(shown[off % 3], format!("L{off}"));
        assert!(shown.len() <= 3);
    }
}

#[test]
fn pdf_window_of_a_book_without_pages() {
    assert_eq!(pdf_neighbor_window(4, 0, 2), 0..=0);
}

#[test]
fn pdf_window_past_the_end_is_the_last_page() {
    assert_eq!(pdf_neighbor_window(40, 10, 2), 9..=9);
    assert_eq!(pdf_neighbor_window(10, 10, 2), 8..=9);
}

#[test]
fn pdf_window_of_any_size_is_clamped() {
    assert_eq!(pdf_neighbor_window(5, 10, usize::MAX), 0..=9);
    assert_eq!(pdf_neighbor_window(usize::MAX, 10, 1), 9..=9);
}

#[test]
fn snapshot_key_differs_on_every_part() {
    let base = snapshot_key(SnapshotFormat::Epub, 1, None, Some(2), 0);
    assert_ne!(base, snapshot_key(SnapshotFormat::Pdf, 1, None, Some(2), 0));
    assert_ne!(base, snapshot_key(SnapshotFormat::Epub, 1, Some(0), Some(2), 0));
    assert_ne!(base, snapshot_key(SnapshotFormat::Epub, 1, None, Some(3), 0));
    assert_ne!(base, snapshot_key(SnapshotFormat::Epub, 1, None, None, 0));
}
