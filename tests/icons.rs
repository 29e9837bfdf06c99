use windp::assets::IconGenerator;

fn px(b: &[u8], size: u32, x: u32, y: u32) -> [u8; 4] {
    let i = ((y * size + x) * 4) as usize;
    [b[i], b[i + 1], b[i + 2], b[i + 3]]
}

// The icons as drawn with floating-point geometry.
fn float_search(size: u32) -> Vec<u8> {
    let mut data = vec![0u8; (size * size * 4) as usize];
    let center = size as f32 / 2.0;
    let radius = size as f32 * 0.35;
    for y in 0..size {
        for x in 0..size {
            let dx = x as f32 - center;
            let dy = y as f32 - center;
            let dist = (dx * dx + dy * dy).sqrt();
            let idx = ((y * size + x) * 4) as usize;
            let ring = (dist - radius).abs() < 2.0;
            let handle = x as f32 > center + radius * 0.5
                && y as f32 > center + radius * 0.5
                && (x as f32 - y as f32).abs() < 3.0;
            if ring || handle {
                data[idx..idx + 4].copy_from_slice(&[255, 255, 255, 255]);
            }
        }
    }
    data
}

fn float_pen(size: u32) -> Vec<u8> {
    let mut data = vec![0u8; (size * size * 4) as usize];
    for y in 0..size {
        for x in 0..size {
            let idx = ((y * size + x) * 4) as usize;
            if (x as f32 + y as f32 - size as f32).abs() < 4.0 && x > size / 4 && x < size * 3 / 4 {
                data[idx..idx + 4].copy_from_slice(&[255, 200, 100, 255]);
            }
        }
    }
    data
}

#[test]
fn search_icon_matches_float_geometry() {
    for size in [8u32, 16, 32, 48, 64, 100] {
        assert_eq!(IconGenerator::generate_search_icon(size), float_search(size), "size {}", size);
    }
}

#[test]
fn pen_icon_matches_float_geometry() {
    for size in [8u32, 16, 31, 64, 100] {
        assert_eq!(IconGenerator::generate_pen_icon(size), float_pen(size), "size {}", size);
    }
}

#[test]
fn search_icon_pixels() {
    let b = IconGenerator::generate_search_icon(64);
    assert_eq!(b.len(), 64 * 64 * 4);
    assert_eq!(px(&b, 64, 54, 32), [255, 255, 255, 255]);
    assert_eq!(px(&b, 64, 32, 32), [0, 0, 0, 0]);
    assert_eq!(px(&b, 64, 50, 50), [255, 255, 255, 255]);
    assert_eq!(px(&b, 64, 44, 44), [255, 255, 255, 255]);
    assert_eq!(px(&b, 64, 0, 0), [0, 0, 0, 0]);
}

#[test]
fn pen_icon_pixels() {
    let b = IconGenerator::generate_pen_icon(64);
    assert_eq!(b.len(), 64 * 64 * 4);
    assert_eq!(px(&b, 64, 32, 32), [255, 200, 100, 255]);
    assert_eq!(px(&b, 64, 30, 37), [255, 200, 100, 255]);
    assert_eq!(px(&b, 64, 30, 38), [0, 0, 0, 0]);
    assert_eq!(px(&b, 64, 16, 48), [0, 0, 0, 0]);
    assert_eq!(px(&b, 64, 10, 54), [0, 0, 0, 0]);
}

#[test]
fn menu_icon_pixels() {
    let b = IconGenerator::generate_menu_icon(64);
    assert_eq!(b.len(), 64 * 64 * 4);
    for y in [17u32, 18, 19, 33, 34, 35, 49, 50, 51] {
        assert_eq!(px(&b, 64, 20, y), [255, 255, 255, 255], "row {}", y);
    }
    for y in [16u32, 20, 32, 36, 48, 52] {
        assert_eq!(px(&b, 64, 20, y), [0, 0, 0, 0], "row {}", y);
    }
    assert_eq!(px(&b, 64, 16, 17), [0, 0, 0, 0]);
    assert_eq!(px(&b, 64, 47, 17), [255, 255, 255, 255]);
    assert_eq!(px(&b, 64, 48, 17), [0, 0, 0, 0]);
}

#[test]
fn empty_icon() {
    assert!(IconGenerator::generate_menu_icon(0).is_empty());
}
