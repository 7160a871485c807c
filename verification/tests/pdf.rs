//! The PDF pane.

use parselab::ir::{BBox, StructuredBlock};
use parselab::number::Real;
use parselab::pdf::{
    order_blocks, Motion, PdfEffects, PdfError, PdfPane, PdfPaneEvent, Place, Scroll, ShownRegion,
};
use std::collections::HashMap;

fn bbox(x: i128) -> BBox {
    BBox {
        x: Real::from_whole(x),
        y: Real::from_whole(0),
        w: Real::from_whole(1),
        h: Real::from_whole(1),
    }
}

fn block(x: i128) -> StructuredBlock {
    StructuredBlock { kind: "text".to_string(), bbox: bbox(x), text: None, confidence: None }
}

fn sorted(mut v: Vec<u32>) -> Vec<u32> {
    v.sort();
    v
}

fn report(e: &PdfEffects) -> Option<Option<(u32, String)>> {
    e.event.as_ref().map(|PdfPaneEvent::SelectionChanged(s)| {
        s.as_ref().map(|s| (s.page, s.bbox.x.text().to_string()))
    })
}

fn pane(pages: u32) -> PdfPane {
    match PdfPane::build(pages, pages as usize) {
        Ok((p, _)) => p,
        Err(e) => panic!("{e:?}"),
    }
}

#[test]
fn opening_renders_the_first_pages() {
    let (p, e) = match PdfPane::build(10, 10) {
        Ok(x) => x,
        Err(e) => panic!("{e:?}"),
    };
    assert_eq!((p.current_page(), p.page_count()), (0, 10));
    assert_eq!(sorted(e.start), vec![0, 1]);
    assert!(matches!(PdfPane::build(0, 0), Err(PdfError::NoPages)));
    assert!(matches!(PdfPane::build(2, 3), Err(PdfError::SizesMismatch)));
    assert_eq!(PdfError::NoPages.message(), "PDF has no pages");
    assert_eq!(PdfError::SizesMismatch.message(), "page count / sizes mismatch");
}

#[test]
fn going_to_a_page_moves_the_window() {
    let mut p = pane(10);
    assert!(p.render_done(0).0);
    let e = p.goto_page(5);
    assert_eq!(p.current_page(), 5);
    assert_eq!(e.evict, vec![0]);
    assert_eq!(e.cancel, vec![1]);
    assert_eq!(sorted(e.start), vec![4, 5, 6]);
    assert!(matches!(e.scroll, Scroll::Page(5)));
    assert!(!p.render_done(0).0);
    assert!(p.render_done(6).0);
    assert!(p.page_is_ready(6));
    let again = p.goto_page(5);
    assert!(again.start.is_empty() && again.notify);
    let last = p.goto_page(99);
    assert_eq!(p.current_page(), 9);
    assert_eq!(sorted(last.start), vec![8, 9]);
    assert_eq!(p.pages_in_active_window(), vec![8, 9]);
}

#[test]
fn neighbours_and_ends() {
    let mut p = pane(3);
    assert!(!p.prev_page().notify);
    p.next_page();
    p.next_page();
    assert_eq!(p.current_page(), 2);
    assert!(!p.next_page().notify);
    p.prev_page();
    assert_eq!(p.current_page(), 1);
    p.last_page();
    assert_eq!(p.current_page(), 2);
    p.first_page();
    assert_eq!(p.current_page(), 0);
    p.scrolled_to(1);
    assert_eq!(p.status_line("Fit"), "Page 2 / 3  ·  Fit");
}

#[test]
fn lost_renders_are_started_again() {
    let mut p = pane(2);
    p.render_failed(1);
    let e = p.refresh_active_window();
    assert_eq!(e.start, vec![1]);
    assert!(p.refresh_active_window().start.is_empty());
}

#[test]
fn selections_are_reported_when_they_change() {
    let mut p = pane(3);
    let e = p.set_selection(7, &bbox(4));
    assert_eq!(report(&e), Some(Some((2, "4".to_string()))));
    assert!(matches!(e.scroll, Scroll::Region(s) if s.page == 2));
    assert_eq!(report(&p.set_selection(2, &bbox(4))), None);
    assert_eq!(p.current_selection().map(|s| s.page), Some(2));
    assert_eq!(report(&p.clear_selection()), Some(None));
    assert!(!p.clear_selection().notify);
}

#[test]
fn drawing_a_region() {
    let mut p = pane(3);
    p.begin_selection(1);
    assert_eq!(p.drawing_page(), Some(1));
    assert_eq!(report(&p.end_selection(Some(&bbox(8)))), Some(Some((1, "8".to_string()))));
    assert!(!p.end_selection(None).notify);
    p.begin_selection(1);
    assert_eq!(report(&p.end_selection(None)), Some(None));
    p.begin_selection(1);
    assert!(p.drop_drawing().notify);
    assert!(!p.drop_drawing().notify);
    p.begin_selection(2);
    let cleared = p.clear_selection();
    assert!(cleared.notify);
    assert_eq!(report(&cleared), None);
    p.begin_selection(2);
    assert!(!p.forget_drawing().notify);
    assert_eq!(p.drawing_page(), None);
}

#[test]
fn the_mouse_draws_or_drags() {
    let mut p = pane(3);
    assert!(!p.mouse_down(true, None).notify);
    assert_eq!(p.mouse_moved(true).0, Motion::Nothing);
    assert!(!p.mouse_down(false, Some(1)).notify);
    let (motion, e) = p.mouse_moved(true);
    assert_eq!((motion, e.notify), (Motion::Pan, true));
    assert!(p.mouse_down(true, Some(1)).notify);
    assert_eq!(p.mouse_moved(true).0, Motion::Draw(1));
    assert!(matches!(p.region_on(1), ShownRegion::Drawn));
    assert!(matches!(p.region_on(0), ShownRegion::Nothing));
    assert_eq!(report(&p.mouse_up(Some(&bbox(8)))), Some(Some((1, "8".to_string()))));
    assert!(matches!(p.region_on(1), ShownRegion::Selected(b) if b.x.text() == "8"));
    let (motion, e) = p.mouse_moved(true);
    assert_eq!((motion, e.notify), (Motion::Nothing, false));
    p.mouse_down(true, Some(2));
    assert!(matches!(p.region_on(1), ShownRegion::Nothing));
    let out = p.mouse_up_out();
    assert!(out.notify && out.event.is_none());
    assert_eq!(p.current_selection().map(|s| s.page), Some(1));
    p.mouse_down(true, Some(2));
    assert_eq!(p.mouse_moved(false).0, Motion::Nothing);
    assert_eq!(p.drawing_page(), None);
}

#[test]
fn overlays_are_replaced_and_cleared() {
    let mut p = pane(3);
    assert!(!p.clear_overlay_blocks().notify);
    let mut blocks = HashMap::new();
    blocks.insert(1, vec![block(1)]);
    p.set_overlay_blocks(blocks);
    assert_eq!(p.overlay_on(1).map(|b| b.len()), Some(1));
    assert!(p.overlay_on(0).is_none());
    assert!(p.clear_overlay_blocks().notify);
    assert!(p.overlay_on(1).is_none());
}

fn place(down: i64, right: i64) -> Place {
    Place { down, right }
}

#[test]
fn blocks_are_read_from_the_top_and_from_the_left() {
    let places = vec![place(5, 0), place(1, 9), place(1, 2), place(5, 0), place(-1, 0)];
    assert_eq!(order_blocks(&places), vec![4, 2, 1, 0, 3]);
    assert!(order_blocks(&Vec::new()).is_empty());
}

#[test]
fn cycling_goes_round_the_page() {
    let mut p = pane(3);
    assert!(!p.cycle_block(1, &Vec::new(), &Vec::new()).notify);
    let mut blocks = HashMap::new();
    blocks.insert(1, vec![block(30), block(10), block(20)]);
    p.set_overlay_blocks(blocks);
    let places = vec![place(0, 30), place(0, 10), place(0, 20)];
    p.set_selection(1, &bbox(30));
    let first = vec![1, 0, 0];
    assert_eq!(
        report(&p.cycle_block(1, &places, &first)),
        Some(Some((1, "10".to_string())))
    );
    p.set_selection(1, &bbox(10));
    let second = vec![0, 1, 0];
    assert_eq!(
        report(&p.cycle_block(-1, &places, &second)),
        Some(Some((1, "30".to_string())))
    );
    assert!(!p.cycle_block(1, &places, &vec![0, 0, 0]).notify);
    assert_eq!(report(&p.cycle_block(-7, &places, &vec![1, 1, 1])), Some(Some((1, "20".to_string()))));
}

#[test]
fn cycling_needs_blocks_on_the_page() {
    let mut p = pane(3);
    p.set_selection(2, &bbox(0));
    assert!(!p.cycle_block(1, &Vec::new(), &Vec::new()).notify);
}

#[test]
fn going_round_and_back_restores_the_selection() {
    let mut p = pane(3);
    let mut blocks = HashMap::new();
    blocks.insert(1, vec![block(30), block(10), block(20)]);
    p.set_overlay_blocks(blocks);
    let places = vec![place(0, 30), place(0, 10), place(0, 20)];
    let scores = |p: &PdfPane| {
        let x = p.current_selection().unwrap().bbox.x.text().to_string();
        let score = |at: &str| if x == at { 1 } else { 0 };
        vec![score("30"), score("10"), score("20")]
    };
    p.set_selection(1, &bbox(20));
    let mut seen = Vec::new();
    for _ in 0..3 {
        let s = scores(&p);
        seen.push(report(&p.cycle_block(1, &places, &s)).unwrap().unwrap());
    }
    let at = |x: &str| (1, x.to_string());
    assert_eq!(seen, vec![at("30"), at("10"), at("20")]);
    for delta in [5, -5] {
        let s = scores(&p);
        p.cycle_block(delta, &places, &s);
    }
    assert_eq!(p.current_selection().unwrap().bbox.x.text(), "20");
}

#[test]
fn equal_regions_are_reported_once() {
    let mut p = pane(3);
    let mut minus = bbox(0);
    minus.x = Real::parse("-0").unwrap();
    assert!(report(&p.set_selection(1, &bbox(0))).is_some());
    assert!(report(&p.set_selection(1, &minus)).is_none());
    let mut none = bbox(0);
    none.w = Real::parse("NaN").unwrap();
    assert!(report(&p.set_selection(1, &none)).is_some());
    assert!(report(&p.set_selection(1, &none)).is_some());
}

#[test]
fn drawing_an_equal_region_keeps_the_selection() {
    let mut p = pane(3);
    p.set_selection(1, &bbox(0));
    let mut minus = bbox(0);
    minus.x = Real::parse("-0").unwrap();
    p.begin_selection(1);
    let e = p.end_selection(Some(&minus));
    assert!(e.notify && report(&e).is_none());
    assert_eq!(p.current_selection().unwrap().bbox.x.text(), "0");
    p.begin_selection(1);
    assert!(report(&p.end_selection(Some(&bbox(7)))).is_some());
    assert_eq!(p.current_selection().unwrap().bbox.x.text(), "7");
}
