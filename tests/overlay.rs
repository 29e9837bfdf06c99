use windp::overlay::OverlayBuffer;

const YELLOW: [u8; 4] = [255, 255, 0, 100];
const CLEAR: [u8; 4] = [0, 0, 0, 0];

#[test]
fn new_buffer_is_clear_and_sized() {
    let o = OverlayBuffer::new(100, 60);
    assert_eq!(o.pixels.len(), 100 * 60 * 4);
    assert!(o.pixels.iter().all(|b| *b == 0));
}

#[test]
fn disc_of_radius_five() {
    let mut o = OverlayBuffer::new(100, 100);
    assert!(o.paint(50, 50));
    assert_eq!(o.pixel(50, 50), YELLOW);
    assert_eq!(o.pixel(50, 70), CLEAR);
    assert_eq!(o.pixel(55, 50), YELLOW);
    assert_eq!(o.pixel(50, 45), YELLOW);
    assert_eq!(o.pixel(56, 50), CLEAR);
    assert_eq!(o.pixel(53, 54), YELLOW);
    assert_eq!(o.pixel(54, 54), CLEAR);
    let painted = o.pixels.chunks(4).filter(|p| *p == YELLOW).count();
    assert_eq!(painted, 81);
    assert_eq!(o.pixels.len(), 100 * 100 * 4);
}

#[test]
fn disc_is_clipped_at_the_edges() {
    let mut o = OverlayBuffer::new(10, 10);
    assert!(o.paint(0, 0));
    assert_eq!(o.pixel(0, 0), YELLOW);
    assert_eq!(o.pixel(5, 0), YELLOW);
    assert_eq!(o.pixel(3, 4), YELLOW);
    assert_eq!(o.pixel(4, 4), CLEAR);
    let painted = o.pixels.chunks(4).filter(|p| *p == YELLOW).count();
    assert_eq!(painted, 26);
    // Centre outside, disc reaching in.
    let mut o = OverlayBuffer::new(10, 10);
    assert!(o.paint(-3, 5));
    assert_eq!(o.pixel(0, 5), YELLOW);
    assert_eq!(o.pixel(2, 5), YELLOW);
    assert_eq!(o.pixel(3, 5), CLEAR);
    assert!(o.paint(12, 12));
    assert_eq!(o.pixel(9, 9), YELLOW);
}

#[test]
fn paint_outside_is_a_no_op() {
    let mut o = OverlayBuffer::new(10, 10);
    assert!(!o.paint(-6, 5));
    assert!(!o.paint(100, 100));
    assert!(!o.paint(i64::MIN, i64::MAX));
    assert!(o.pixels.iter().all(|b| *b == 0));
    let mut e = OverlayBuffer::new(0, 0);
    assert!(!e.paint(0, 0));
    assert!(e.pixels.is_empty());
}

#[test]
fn clear_zeroes_everything() {
    let mut o = OverlayBuffer::new(20, 20);
    o.paint(10, 10);
    o.paint(0, 19);
    o.clear();
    assert_eq!(o.pixels.len(), 20 * 20 * 4);
    assert!(o.pixels.iter().all(|b| *b == 0));
}
