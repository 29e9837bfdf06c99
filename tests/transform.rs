use windp::transform::{camera_to_uv, screen_to_ndc, screen_to_texel, uv_to_texel, Frac};

fn f(num: i128, den: i128) -> Frac {
    Frac { num, den }
}

#[test]
fn view_centre_is_ndc_origin() {
    let (x, y) = screen_to_ndc(600, 400, 1200, 800);
    assert_eq!(x.num, 0);
    assert_eq!(y.num, 0);
    // Odd sizes: the pixel rounded down from the centre is within a pixel.
    let (x, y) = screen_to_ndc(600, 400, 1201, 801);
    assert_eq!((x.num, x.den), (-1, 1201));
    assert_eq!((y.num, y.den), (1, 801));
}

#[test]
fn ndc_round_trip() {
    for (px, py, w, h) in [(0i64, 0i64, 1200u32, 800u32), (1199, 799, 1200, 800), (37, 512, 640, 480)] {
        let (x, y) = screen_to_ndc(px, py, w, h);
        // back = (x + 1) * w / 2 and (1 - y) * h / 2
        let bx = (x.num + x.den) * w as i128;
        let by = (y.den - y.num) * h as i128;
        assert_eq!(bx, px as i128 * 2 * x.den);
        assert_eq!(by, py as i128 * 2 * y.den);
    }
    let (x, y) = screen_to_ndc(0, 0, 100, 50);
    assert_eq!((x.num, x.den), (-100, 100));
    assert_eq!((y.num, y.den), (50, 50));
}

#[test]
fn camera_to_uv_rejects_off_page() {
    assert!(camera_to_uv(f(3, 2), f(0, 1)).is_none());
    assert!(camera_to_uv(f(-3, 2), f(0, 1)).is_none());
    assert!(camera_to_uv(f(0, 1), f(11, 10)).is_none());
    assert!(camera_to_uv(f(0, 1), f(-11, 10)).is_none());
    let (u, v) = camera_to_uv(f(1, 1), f(-1, 1)).unwrap();
    assert_eq!((u.num, u.den), (2, 2));
    assert_eq!((v.num, v.den), (2, 2));
    let (u, v) = camera_to_uv(f(0, 1), f(1, 2)).unwrap();
    assert_eq!((u.num, u.den), (1, 2));
    assert_eq!((v.num, v.den), (1, 4));
}

#[test]
fn uv_to_texel_floors() {
    assert_eq!(uv_to_texel(f(1, 2), f(1, 4), 100, 100), (50, 25));
    assert_eq!(uv_to_texel(f(1, 3), f(2, 3), 100, 10), (33, 6));
    assert_eq!(uv_to_texel(f(1, 1), f(0, 1), 100, 100), (100, 0));
}

#[test]
fn centre_pixel_hits_centre_texel() {
    assert_eq!(screen_to_texel(600, 400, 1200, 800, 1000, 0, 0, 100, 100), Some((50, 50)));
    assert_eq!(screen_to_texel(600, 400, 1200, 800, 1000, 0, 0, 918, 1188), Some((459, 594)));
}

#[test]
fn corners_and_outside() {
    // Zoom 1, no pan: the page spans the whole width; vertically it is
    // stretched by the aspect ratio 1.5, so every row is on it.
    assert_eq!(screen_to_texel(0, 400, 1200, 800, 1000, 0, 0, 100, 100), Some((0, 50)));
    assert_eq!(screen_to_texel(600, 0, 1200, 800, 1000, 0, 0, 100, 100), Some((50, 16)));
    assert_eq!(screen_to_texel(600, 100, 1200, 800, 1000, 0, 0, 100, 100), Some((50, 25)));
    assert_eq!(screen_to_texel(600, 700, 1200, 800, 1000, 0, 0, 100, 100), Some((50, 75)));
    assert_eq!(screen_to_texel(-1, 400, 1200, 800, 1000, 0, 0, 100, 100), None);
    assert_eq!(screen_to_texel(1201, 400, 1200, 800, 1000, 0, 0, 100, 100), None);
    // Zoom 0.5: the page covers the middle half of the width only.
    assert_eq!(screen_to_texel(100, 400, 1200, 800, 500, 0, 0, 100, 100), None);
    assert_eq!(screen_to_texel(300, 400, 1200, 800, 500, 0, 0, 100, 100), Some((0, 50)));
    // Zoom 0.5, 800 by 1200: vertically the page covers rows 400 to 800.
    assert_eq!(screen_to_texel(400, 50, 800, 1200, 500, 0, 0, 100, 100), None);
    assert_eq!(screen_to_texel(400, 1150, 800, 1200, 500, 0, 0, 100, 100), None);
}

#[test]
fn zoom_and_pan_move_the_target() {
    // Zoom 2: the centre still maps to the centre, a quarter-width step right
    // moves a quarter of the page less.
    assert_eq!(screen_to_texel(900, 400, 1200, 800, 2000, 0, 0, 100, 100), Some((62, 50)));
    // Pan right by 0.5 NDC: the pixel at NDC 0.5 shows the page centre.
    assert_eq!(screen_to_texel(900, 400, 1200, 800, 1000, 500_000, 0, 100, 100), Some((50, 50)));
}
