use windp::camera::{pixels_to_ndc_delta, Camera, Viewport, MAX_ZOOM, MIN_ZOOM, ZOOM_PER_LINE};
use windp::frame::{on_acquire_failure, AcquireFailure, FrameAction};
use windp::page::{PageBitmap, PageNavigator};
use windp::ui::{Tool, UiState};
use windp::viewer::ViewerState;

fn bitmap(width: u32, height: u32, fill: u8) -> PageBitmap {
    PageBitmap::new(width, height, vec![fill; (width * height * 4) as usize]).unwrap()
}

#[test]
fn zoom_stays_in_range() {
    let mut c = Camera::new();
    assert_eq!(c.zoom, 1000);
    let steps = [100i64, -5000, 3, 9000, 9000, -1, i64::MIN, i64::MAX, -250, 42];
    for d in steps {
        c.scroll(d);
        assert!(c.zoom >= MIN_ZOOM && c.zoom <= MAX_ZOOM);
    }
    c.scroll(-10_000);
    assert_eq!(c.zoom, MIN_ZOOM);
    c.scroll(10_000_000);
    assert_eq!(c.zoom, MAX_ZOOM);
}

#[test]
fn wheel_lines_clamp_at_ten() {
    let mut s = ViewerState::new(1200, 800, 0, &PageBitmap::fallback());
    for _ in 0..50 {
        s.scroll(ZOOM_PER_LINE);
        assert!(s.camera.zoom <= MAX_ZOOM);
    }
    // 1.0 + 50 * 0.1
    assert_eq!(s.camera.zoom, 6_000);
    for _ in 0..50 {
        s.scroll(ZOOM_PER_LINE);
        assert!(s.camera.zoom <= MAX_ZOOM);
    }
    assert_eq!(s.camera.zoom, 10_000);
    for _ in 0..200 {
        s.scroll(-ZOOM_PER_LINE);
        assert!(s.camera.zoom >= MIN_ZOOM);
    }
    assert_eq!(s.camera.zoom, 100);
}

#[test]
fn navigator_bounds() {
    let mut n = PageNavigator::new(3);
    assert_eq!(n.previous(), None);
    assert_eq!(n.next(), Some(1));
    assert!(n.go_to(2));
    assert_eq!(n.next(), None);
    assert_eq!(n.previous(), Some(1));
    assert!(!n.go_to(3));
    assert_eq!(n.current_page, 2);
    let empty = PageNavigator::new(0);
    assert_eq!(empty.next(), None);
    assert_eq!(empty.previous(), None);
}

#[test]
fn three_page_document() {
    let mut s = ViewerState::new(1200, 800, 3, &bitmap(100, 100, 10));
    assert_eq!(s.navigator.current_page, 0);
    // Scribble on page 0 first.
    s.ui.active_tool = Tool::Highlighter;
    s.cursor_moved(600, 400);
    assert!(!s.press());
    assert!(s.cursor_moved(600, 400));
    s.release();
    for (expected, size) in [(1u16, (120u32, 90u32)), (2, (80, 110))] {
        let next = s.next_page().unwrap();
        assert_eq!(next, expected);
        let b = bitmap(size.0, size.1, next as u8);
        assert!(s.show_page(next, &b));
    }
    assert_eq!(s.navigator.current_page, 2);
    assert_eq!(s.next_page(), None);
    assert_eq!((s.overlay.width, s.overlay.height), (80, 110));
    assert_eq!(s.overlay.pixels.len(), 80 * 110 * 4);
    assert!(s.overlay.pixels.iter().all(|b| *b == 0));
    assert_eq!(s.previous_page(), Some(1));
}

#[test]
fn show_page_past_the_end_is_ignored() {
    let mut s = ViewerState::new(1200, 800, 2, &bitmap(10, 10, 0));
    assert!(!s.show_page(2, &bitmap(20, 20, 0)));
    assert_eq!(s.navigator.current_page, 0);
    assert_eq!((s.overlay.width, s.overlay.height), (10, 10));
}

#[test]
fn tool_button_then_paint_at_centre() {
    let mut s = ViewerState::new(1200, 800, 1, &bitmap(100, 100, 255));
    assert_eq!(s.ui.active_tool, Tool::Pan);
    s.cursor_moved(600, 780);
    assert!(s.press());
    assert!(!s.mouse_pressed);
    assert_eq!(s.ui.active_tool, Tool::Highlighter);
    s.release();
    s.cursor_moved(600, 400);
    assert!(!s.press());
    assert!(s.cursor_moved(600, 400));
    assert_eq!(s.overlay.pixel(50, 50), [255, 255, 0, 100]);
    assert_eq!(s.overlay.pixel(50, 70), [0, 0, 0, 0]);
    // A second click on the button switches back to panning.
    s.release();
    s.cursor_moved(600, 780);
    assert!(s.press());
    assert_eq!(s.ui.active_tool, Tool::Pan);
}

#[test]
fn pan_drag_moves_the_camera() {
    let mut s = ViewerState::new(1200, 800, 1, &bitmap(100, 100, 255));
    s.cursor_moved(600, 400);
    assert!(!s.press());
    assert!(!s.cursor_moved(900, 200));
    assert_eq!(s.camera.pan_x, 500_000);
    assert_eq!(s.camera.pan_y, 500_000);
    assert!(s.overlay.pixels.iter().all(|b| *b == 0));
    s.release();
    s.cursor_moved(0, 0);
    assert_eq!(s.camera.pan_x, 500_000);
}

#[test]
fn hit_test_zones() {
    let mut ui = UiState::new();
    // Menu button: 100 to 60 pixels left of the centre of 1200.
    assert!(ui.hit_test(520, 790, 1200, 800));
    assert!(ui.is_carousel_open);
    assert_eq!(ui.active_tool, Tool::Pan);
    // Open panel consumes presses on its width only.
    assert!(ui.hit_test(100, 100, 1200, 800));
    assert!(!ui.hit_test(300, 100, 1200, 800));
    // Search button and the rest of the bar: consumed, nothing changes.
    assert!(ui.hit_test(680, 790, 1200, 800));
    assert!(ui.hit_test(10, 730, 1200, 800));
    assert!(ui.is_carousel_open);
    assert_eq!(ui.active_tool, Tool::Pan);
    // Zone edges are exclusive.
    assert!(ui.hit_test(500, 790, 1200, 800));
    assert!(ui.is_carousel_open);
    assert!(ui.hit_test(540, 790, 1200, 800));
    assert!(ui.is_carousel_open);
    // Row 720 is the bar's edge, outside it.
    assert!(!ui.hit_test(600, 720, 1200, 800));
    let mut closed = UiState::new();
    assert!(!closed.hit_test(600, 720, 1200, 800));
    assert!(!closed.hit_test(100, 100, 1200, 800));
    assert_eq!(closed.active_tool, Tool::Pan);
}

#[test]
fn zero_area_resize_is_ignored() {
    let mut s = ViewerState::new(1200, 800, 0, &PageBitmap::fallback());
    assert!(!s.resize(0, 0));
    assert_eq!(s.viewport, Viewport { width: 1200, height: 800 });
    assert!(!s.resize(0, 600));
    assert!(!s.resize(600, 0));
    assert_eq!(s.viewport, Viewport { width: 1200, height: 800 });
    assert!(s.resize(640, 480));
    assert_eq!(s.viewport, Viewport { width: 640, height: 480 });
}

#[test]
fn no_document_uses_fallback() {
    let fallback = PageBitmap::fallback();
    assert_eq!((fallback.width, fallback.height), (1, 1));
    assert_eq!(fallback.data, vec![0, 0, 0, 255]);
    let s = ViewerState::new(1200, 800, 0, &fallback);
    assert_eq!(s.navigator.total_pages, 0);
    assert_eq!(s.next_page(), None);
    assert_eq!(s.previous_page(), None);
    assert_eq!((s.overlay.width, s.overlay.height), (1, 1));
}

#[test]
fn bitmap_size_is_checked() {
    assert!(PageBitmap::new(2, 2, vec![0; 16]).is_some());
    assert!(PageBitmap::new(2, 2, vec![0; 15]).is_none());
    assert!(PageBitmap::new(0, 5, vec![]).is_some());
}

#[test]
fn pixel_moves_to_ndc_millionths() {
    assert_eq!(pixels_to_ndc_delta(600, 1200), 1_000_000);
    assert_eq!(pixels_to_ndc_delta(-1, 3), -666_666);
    assert_eq!(pixels_to_ndc_delta(1, 3), 666_666);
    assert_eq!(pixels_to_ndc_delta(0, 7), 0);
}

#[test]
fn acquire_failures() {
    assert_eq!(on_acquire_failure(AcquireFailure::Lost), FrameAction::Reconfigure);
    assert_eq!(on_acquire_failure(AcquireFailure::Outdated), FrameAction::Reconfigure);
    assert_eq!(on_acquire_failure(AcquireFailure::OutOfMemory), FrameAction::Exit);
    assert_eq!(on_acquire_failure(AcquireFailure::Timeout), FrameAction::Skip);
}

#[test]
fn camera_uniform_is_exact() {
    let mut s = ViewerState::new(1200, 800, 0, &PageBitmap::fallback());
    s.scroll(500);
    s.camera.pan_by(250_000, -125_000);
    let ((sx, sy), (tx, ty)) = s.camera_uniform();
    assert_eq!((sx.num, sx.den), (1500, 1000));
    assert_eq!((sy.num, sy.den), (1500 * 1200, 1000 * 800));
    assert_eq!((tx.num, tx.den), (250_000, 1_000_000));
    assert_eq!((ty.num, ty.den), (-125_000, 1_000_000));
}

#[test]
fn no_tool_drags_do_nothing() {
    let mut s = ViewerState::new(1200, 800, 1, &bitmap(100, 100, 255));
    s.ui.active_tool = Tool::NoTool;
    s.cursor_moved(600, 400);
    assert!(!s.press());
    assert!(!s.cursor_moved(700, 300));
    assert_eq!((s.camera.pan_x, s.camera.pan_y), (0, 0));
    assert!(s.overlay.pixels.iter().all(|b| *b == 0));
    assert_eq!((s.cursor_x, s.cursor_y), (700, 300));
}

#[test]
fn press_on_toolbar_starts_no_drag() {
    let mut s = ViewerState::new(1200, 800, 1, &bitmap(100, 100, 255));
    s.cursor_moved(10, 790);
    assert!(s.press());
    assert!(!s.mouse_pressed);
    assert!(!s.cursor_moved(300, 300));
    assert_eq!((s.camera.pan_x, s.camera.pan_y), (0, 0));
}
