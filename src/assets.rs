//! Procedural toolbar icons, drawn as tightly packed RGBA bitmaps.
//!
//! Every shape is stated with exact integer arithmetic: the geometric tests
//! (distances, half and quarter sizes) are scaled so that no fraction is
//! needed.
use vstd::prelude::*;
use vstd::arithmetic::div_mod::lemma_fundamental_div_mod_converse;

verus! {

/// The three icons of the bottom bar.
#[derive(Clone, Copy, PartialEq, Eq, Debug)]
pub enum IconShape {
    Search,
    Pen,
    Menu,
}

/// Square of an integer.
pub open spec fn sq(a: int) -> int {
    a * a
}

/// The magnifier's ring: the distance from the icon's centre `size/2` lies
/// strictly within 2 of the radius `0.35 * size`. Both sides are scaled by 20,
/// and squared, so the test is exact.
pub open spec fn on_search_ring(size: int, x: int, y: int) -> bool {
    let q = sq(2 * x - size) + sq(2 * y - size);
    (7 * size - 40 < 0 || sq(7 * size - 40) < 100 * q) && 100 * q < sq(7 * size + 40)
}

/// The magnifier's handle: a diagonal band below and right of
/// `size/2 + 0.175 * size` on both axes.
pub open spec fn on_search_handle(size: int, x: int, y: int) -> bool {
    40 * x > 27 * size && 40 * y > 27 * size && -3 < x - y < 3
}

/// The pen: the anti-diagonal band `|x + y - size| < 4`, between the quarter
/// marks.
pub open spec fn on_pen(size: int, x: int, y: int) -> bool {
    -4 < x + y - size < 4 && x > size / 4 && x < size * 3 / 4
}

/// The menu: three horizontal bars, three pixels thick, after the quarter,
/// half and three-quarter rows, between the quarter marks.
pub open spec fn on_menu(size: int, x: int, y: int) -> bool {
    ((size / 4 < y < size / 4 + 4) || (size / 2 < y < size / 2 + 4) || (size * 3 / 4 < y
        < size * 3 / 4 + 4)) && x > size / 4 && x < size * 3 / 4
}

/// Whether the pixel `(x, y)` belongs to the shape.
pub open spec fn covers(shape: IconShape, size: int, x: int, y: int) -> bool {
    match shape {
        IconShape::Search => on_search_ring(size, x, y) || on_search_handle(size, x, y),
        IconShape::Pen => on_pen(size, x, y),
        IconShape::Menu => on_menu(size, x, y),
    }
}

/// Channel `c` (R, G, B, A) of the shape's ink.
pub open spec fn ink(shape: IconShape, c: int) -> u8 {
    match shape {
        IconShape::Pen => if c == 0 {
            255u8
        } else if c == 1 {
            200u8
        } else if c == 2 {
            100u8
        } else {
            255u8
        },
        _ => 255u8,
    }
}

/// Channel `c` of pixel `(x, y)`: the ink on the shape, transparent black
/// elsewhere.
pub open spec fn icon_byte(shape: IconShape, size: int, x: int, y: int, c: int) -> u8 {
    if covers(shape, size, x, y) {
        ink(shape, c)
    } else {
        0u8
    }
}

/// The bitmap `b` is the shape drawn on a `size` by `size` RGBA canvas, rows
/// top to bottom.
pub open spec fn is_icon(b: Seq<u8>, shape: IconShape, size: int) -> bool {
    &&& b.len() == size * size * 4
    &&& forall|x: int, y: int, c: int|
        0 <= x < size && 0 <= y < size && 0 <= c < 4 ==> #[trigger] b[(y * size + x) * 4 + c]
            == icon_byte(shape, size, x, y, c)
}

fn covers_exec(shape: IconShape, size: u32, x: u32, y: u32) -> (r: bool)
    requires
        size as int * size as int * 4 <= u32::MAX,
        x < size,
        y < size,
    ensures
        r == covers(shape, size as int, x as int, y as int),
{
    assert(size <= 32768) by (nonlinear_arith)
        requires
            size as int * size as int * 4 <= u32::MAX,
    ;
    match shape {
        IconShape::Search => {
            let s = size as i64;
            let dx = 2 * (x as i64) - s;
            let dy = 2 * (y as i64) - s;
            assert(0 <= dx * dx <= 0x1_0000_0000 && 0 <= dy * dy <= 0x1_0000_0000)
                by (nonlinear_arith)
                requires
                    -s <= dx <= s,
                    -s <= dy <= s,
                    0 <= s <= 32768,
            ;
            let q = dx * dx + dy * dy;
            let inner = 7 * s - 40;
            let outer = 7 * s + 40;
            assert(0 <= inner * inner <= 0x100_0000_0000 && 0 <= outer * outer <= 0x100_0000_0000)
                by (nonlinear_arith)
                requires
                    inner == 7 * s - 40,
                    outer == 7 * s + 40,
                    0 <= s <= 32768,
            ;
            let ring = (inner < 0 || inner * inner < 100 * q) && 100 * q < outer * outer;
            let xi = x as i64;
            let yi = y as i64;
            let handle = 40 * xi > 27 * s && 40 * yi > 27 * s && -3 < xi - yi && xi - yi < 3;
            ring || handle
        },
        IconShape::Pen => {
            let d = x as i64 + y as i64 - size as i64;
            -4 < d && d < 4 && x > size / 4 && x < size * 3 / 4
        },
        IconShape::Menu => {
            let q = size / 4;
            let h = size / 2;
            let t = size * 3 / 4;
            let bar = (q < y && y < q + 4) || (h < y && y < h + 4) || (t < y && y < t + 4);
            bar && x > q && x < t
        },
    }
}

fn ink_exec(shape: IconShape, c: u32) -> (r: u8)
    requires
        c < 4,
    ensures
        r == ink(shape, c as int),
{
    match shape {
        IconShape::Pen => if c == 0 {
            255
        } else if c == 1 {
            200
        } else if c == 2 {
            100
        } else {
            255
        },
        _ => 255,
    }
}

/// Draws the shape on a `size` by `size` canvas.
pub fn draw_icon(shape: IconShape, size: u32) -> (r: Vec<u8>)
    requires
        size as int * size as int * 4 <= u32::MAX,
    ensures
        is_icon(r@, shape, size as int),
{
    let n: u32 = size * size;
    let mut data: Vec<u8> = Vec::new();
    let mut p: u32 = 0;
    while p < n
        invariant
            n == size * size,
            size as int * size as int * 4 <= u32::MAX,
            p <= n,
            data@.len() == p as int * 4,
            forall|k: int, c: int|
                0 <= k < p && 0 <= c < 4 ==> #[trigger] data@[k * 4 + c] == icon_byte(
                    shape,
                    size as int,
                    k % size as int,
                    k / size as int,
                    c,
                ),
        decreases n - p,
    {
        let x = p % size;
        let y = p / size;
        assert(y < size) by (nonlinear_arith)
            requires
                y == p / size,
                p < size * size,
                size > 0,
        ;
        let on = covers_exec(shape, size, x, y);
        let mut c: u32 = 0;
        while c < 4
            invariant
                c <= 4,
                data@.len() == p as int * 4 + c,
                forall|k: int, cc: int|
                    0 <= k < p && 0 <= cc < 4 ==> #[trigger] data@[k * 4 + cc] == icon_byte(
                        shape,
                        size as int,
                        k % size as int,
                        k / size as int,
                        cc,
                    ),
                forall|cc: int|
                    0 <= cc < c ==> #[trigger] data@[p * 4 + cc] == icon_byte(
                        shape,
                        size as int,
                        x as int,
                        y as int,
                        cc,
                    ),
                on == covers(shape, size as int, x as int, y as int),
            decreases 4 - c,
        {
            let b = if on {
                ink_exec(shape, c)
            } else {
                0
            };
            data.push(b);
            c = c + 1;
        }
        assert forall|k: int, cc: int|
            0 <= k < p + 1 && 0 <= cc < 4 implies #[trigger] data@[k * 4 + cc] == icon_byte(
                shape,
                size as int,
                k % size as int,
                k / size as int,
                cc,
            ) by {
            if k == p {
            }
        }
        p = p + 1;
    }
    assert forall|x: int, y: int, c: int|
        0 <= x < size && 0 <= y < size && 0 <= c < 4 implies #[trigger] data@[(y * size + x) * 4
        + c] == icon_byte(shape, size as int, x, y, c) by {
        lemma_fundamental_div_mod_converse(y * size + x, size as int, y, x);
        assert(y * size + x < size * size) by (nonlinear_arith)
            requires
                0 <= x < size,
                0 <= y < size,
        ;
    }
    data
}

/// The toolbar's icon generator.
pub struct IconGenerator;

impl IconGenerator {
    /// A magnifying glass: a white ring of radius `0.35 * size` around the
    /// centre, with a white diagonal handle towards the lower right.
    pub fn generate_search_icon(size: u32) -> (r: Vec<u8>)
        requires
            size as int * size as int * 4 <= u32::MAX,
        ensures
            is_icon(r@, IconShape::Search, size as int),
    {
        draw_icon(IconShape::Search, size)
    }

    /// A pen: an orange (255, 200, 100) anti-diagonal stroke.
    pub fn generate_pen_icon(size: u32) -> (r: Vec<u8>)
        requires
            size as int * size as int * 4 <= u32::MAX,
        ensures
            is_icon(r@, IconShape::Pen, size as int),
    {
        draw_icon(IconShape::Pen, size)
    }

    /// A menu: three short white horizontal bars.
    pub fn generate_menu_icon(size: u32) -> (r: Vec<u8>)
        requires
            size as int * size as int * 4 <= u32::MAX,
        ensures
            is_icon(r@, IconShape::Menu, size as int),
    {
        draw_icon(IconShape::Menu, size)
    }
}

} // verus!
