//! The viewer's session state and its response to input. The caller runs the
//! event loop, rasterizes pages and uploads textures; this state decides what
//! each event does.
use vstd::prelude::*;
use crate::camera::{Camera, Viewport, clamp_zoom, ndc_delta, pixels_to_ndc_delta, saturate};
use crate::overlay::{OverlayBuffer, stamp_hits, stamped_byte};
use crate::page::{PageBitmap, PageNavigator};
use crate::transform::{Frac, PAN_UNIT, ZOOM_UNIT, screen_to_texel, target_of};
use crate::ui::{Tool, UiState, in_bottom_bar, on_menu_button, on_tool_button, toggled};

verus! {

/// Everything the viewer remembers between events.
pub struct ViewerState {
    pub viewport: Viewport,
    pub camera: Camera,
    pub ui: UiState,
    pub navigator: PageNavigator,
    /// The annotation layer; its size is the current page's.
    pub overlay: OverlayBuffer,
    /// A drag is under way: the left button went down off the toolbar.
    pub mouse_pressed: bool,
    /// Last cursor position, in pixels.
    pub cursor_x: i32,
    pub cursor_y: i32,
}

impl ViewerState {
    /// Each part is well formed.
    pub open spec fn wf(&self) -> bool {
        &&& self.viewport.wf()
        &&& self.camera.wf()
        &&& self.navigator.wf()
        &&& self.overlay.wf()
    }

    /// The state at start-up: a `width` by `height` viewport, a document of
    /// `total_pages` pages (0 without one) showing `page`, zoom 1.0, the pan
    /// tool, and a clear overlay the size of `page`.
    pub fn new(width: u32, height: u32, total_pages: u16, page: &PageBitmap) -> (r: ViewerState)
        requires
            width > 0,
            height > 0,
            page.wf(),
        ensures
            r.wf(),
            r.viewport == (Viewport { width, height }),
            r.camera == (Camera { zoom: ZOOM_UNIT, pan_x: 0, pan_y: 0 }),
            r.ui.active_tool == Tool::Pan,
            !r.ui.is_carousel_open,
            r.navigator == (PageNavigator { current_page: 0, total_pages }),
            r.overlay.width == page.width,
            r.overlay.height == page.height,
            r.overlay.is_clear(),
            !r.mouse_pressed,
    {
        // The page's data, held in memory, bounds the overlay's size.
        let n = page.data.len();
        assert(n == page.width * page.height * 4);
        ViewerState {
            viewport: Viewport { width, height },
            camera: Camera::new(),
            ui: UiState::new(),
            navigator: PageNavigator::new(total_pages),
            overlay: OverlayBuffer::new(page.width, page.height),
            mouse_pressed: false,
            cursor_x: 0,
            cursor_y: 0,
        }
    }

    /// Takes a new viewport size; a size without area is ignored. Returns
    /// whether the size was taken, that is whether the surface needs
    /// configuring again.
    pub fn resize(&mut self, width: u32, height: u32) -> (applied: bool)
        requires
            old(self).wf(),
        ensures
            final(self).wf(),
            applied == (width > 0 && height > 0),
            final(self).viewport == if applied {
                Viewport { width, height }
            } else {
                old(self).viewport
            },
            final(self).camera == old(self).camera,
            final(self).ui == old(self).ui,
            final(self).navigator == old(self).navigator,
            final(self).overlay == old(self).overlay,
    {
        self.viewport.resize(width, height)
    }

    /// A wheel step of `delta` thousandths of zoom.
    pub fn scroll(&mut self, delta: i64)
        requires
            old(self).wf(),
        ensures
            final(self).wf(),
            final(self).camera.zoom == clamp_zoom(old(self).camera.zoom + delta),
            final(self).camera.pan_x == old(self).camera.pan_x,
            final(self).camera.pan_y == old(self).camera.pan_y,
            final(self).viewport == old(self).viewport,
            final(self).ui == old(self).ui,
            final(self).navigator == old(self).navigator,
            final(self).overlay == old(self).overlay,
    {
        self.camera.scroll(delta);
    }

    /// The left button went down at the last cursor position. The toolbar
    /// and side panel see it first; where they do not consume it, a drag
    /// starts. Returns whether they consumed it.
    pub fn press(&mut self) -> (consumed: bool)
        requires
            old(self).wf(),
        ensures
            final(self).wf(),
            consumed == old(self).ui.consumes(
                old(self).cursor_x as int,
                old(self).cursor_y as int,
                old(self).viewport.width as int,
                old(self).viewport.height as int,
            ),
            final(self).mouse_pressed == !consumed,
            final(self).ui.is_carousel_open == if in_bottom_bar(
                old(self).ui.bottom_bar_height as int,
                old(self).cursor_y as int,
                old(self).viewport.height as int,
            ) && on_menu_button(old(self).cursor_x as int, old(self).viewport.width as int) {
                !old(self).ui.is_carousel_open
            } else {
                old(self).ui.is_carousel_open
            },
            final(self).ui.active_tool == if in_bottom_bar(
                old(self).ui.bottom_bar_height as int,
                old(self).cursor_y as int,
                old(self).viewport.height as int,
            ) && on_tool_button(old(self).cursor_x as int, old(self).viewport.width as int) {
                toggled(old(self).ui.active_tool)
            } else {
                old(self).ui.active_tool
            },
            final(self).ui.bottom_bar_height == old(self).ui.bottom_bar_height,
            final(self).ui.side_panel_width == old(self).ui.side_panel_width,
            final(self).viewport == old(self).viewport,
            final(self).camera == old(self).camera,
            final(self).navigator == old(self).navigator,
            final(self).overlay == old(self).overlay,
            final(self).cursor_x == old(self).cursor_x,
            final(self).cursor_y == old(self).cursor_y,
    {
        let consumed = self.ui.hit_test(
            self.cursor_x as i64,
            self.cursor_y as i64,
            self.viewport.width,
            self.viewport.height,
        );
        self.mouse_pressed = !consumed;
        consumed
    }

    /// The left button went up: the drag, if any, ends.
    pub fn release(&mut self)
        requires
            old(self).wf(),
        ensures
            final(self).wf(),
            !final(self).mouse_pressed,
            final(self).viewport == old(self).viewport,
            final(self).camera == old(self).camera,
            final(self).ui == old(self).ui,
            final(self).navigator == old(self).navigator,
            final(self).overlay == old(self).overlay,
    {
        self.mouse_pressed = false;
    }

    /// The vertex stage's scale, `(zoom, zoom * aspect)` with
    /// `aspect = width / height`, and offset, the pan, as exact
    /// fractions. Undoing them is what `target` does first.
    pub fn camera_uniform(&self) -> (r: ((Frac, Frac), (Frac, Frac)))
        requires
            self.wf(),
        ensures
            r.0.0@ == (self.camera.zoom as int, ZOOM_UNIT as int),
            r.0.1@ == (self.camera.zoom * self.viewport.width, ZOOM_UNIT * self.viewport.height),
            r.1.0@ == (self.camera.pan_x as int, PAN_UNIT as int),
            r.1.1@ == (self.camera.pan_y as int, PAN_UNIT as int),
    {
        let zoom = self.camera.zoom as i128;
        let unit = ZOOM_UNIT as i128;
        let pan = PAN_UNIT as i128;
        assert(zoom * self.viewport.width <= 10000 * 0xffff_ffff) by (nonlinear_arith)
            requires
                0 <= zoom <= 10000,
                0 <= self.viewport.width <= 0xffff_ffff,
        ;
        assert(unit * self.viewport.height <= 1000 * 0xffff_ffff) by (nonlinear_arith)
            requires
                unit == 1000,
                0 <= self.viewport.height <= 0xffff_ffff,
        ;
        (
            (
                Frac { num: zoom, den: unit },
                Frac {
                    num: zoom * self.viewport.width as i128,
                    den: unit * self.viewport.height as i128,
                },
            ),
            (
                Frac { num: self.camera.pan_x as i128, den: pan },
                Frac { num: self.camera.pan_y as i128, den: pan },
            ),
        )
    }

    /// The texel under the screen pixel `(px, py)`, or `None` off the page.
    pub open spec fn target(&self, px: int, py: int) -> Option<(int, int)> {
        target_of(
            px,
            py,
            self.viewport.width as int,
            self.viewport.height as int,
            self.camera.zoom as int,
            self.camera.pan_x as int,
            self.camera.pan_y as int,
            self.overlay.width as int,
            self.overlay.height as int,
        )
    }

    /// The cursor moved to pixel `(px, py)`. During a drag the pan tool moves
    /// the page with the cursor and the highlighter stamps the brush on the
    /// texel under it. Returns whether the overlay changed, that is whether
    /// it needs uploading again.
    pub fn cursor_moved(&mut self, px: i32, py: i32) -> (overlay_changed: bool)
        requires
            old(self).wf(),
        ensures
            final(self).wf(),
            final(self).cursor_x == px,
            final(self).cursor_y == py,
            final(self).mouse_pressed == old(self).mouse_pressed,
            final(self).viewport == old(self).viewport,
            final(self).ui == old(self).ui,
            final(self).navigator == old(self).navigator,
            final(self).camera.zoom == old(self).camera.zoom,
            final(self).overlay.width == old(self).overlay.width,
            final(self).overlay.height == old(self).overlay.height,
            ({
                let o = *old(self);
                let f = *final(self);
                let panning = o.mouse_pressed && o.ui.active_tool == Tool::Pan;
                let painting = o.mouse_pressed && o.ui.active_tool == Tool::Highlighter;
                &&& panning ==> f.camera.pan_x == saturate(
                    o.camera.pan_x + saturate(ndc_delta(px - o.cursor_x, o.viewport.width as int)),
                ) && f.camera.pan_y == saturate(
                    o.camera.pan_y + saturate(ndc_delta(o.cursor_y - py, o.viewport.height as int)),
                )
                &&& !panning ==> f.camera == o.camera
                &&& painting && o.target(px as int, py as int) is Some ==> {
                    let t = o.target(px as int, py as int)->Some_0;
                    &&& overlay_changed == stamp_hits(
                        o.overlay.width as int,
                        o.overlay.height as int,
                        t.0,
                        t.1,
                    )
                    &&& forall|i: int|
                        0 <= i < f.overlay.pixels@.len() ==> #[trigger] f.overlay.pixels@[i]
                            == stamped_byte(o.overlay.pixels@, o.overlay.width as int, t.0, t.1, i)
                }
                &&& !(painting && o.target(px as int, py as int) is Some) ==> !overlay_changed
                    && f.overlay.pixels@ == o.overlay.pixels@
            }),
    {
        let dx = px as i64 - self.cursor_x as i64;
        let dy = self.cursor_y as i64 - py as i64;
        let mut changed = false;
        if self.mouse_pressed {
            match self.ui.active_tool {
                Tool::Pan => {
                    let ndx = pixels_to_ndc_delta(dx, self.viewport.width);
                    let ndy = pixels_to_ndc_delta(dy, self.viewport.height);
                    self.camera.pan_by(ndx, ndy);
                },
                Tool::Highlighter => {
                    let target = screen_to_texel(
                        px as i64,
                        py as i64,
                        self.viewport.width,
                        self.viewport.height,
                        self.camera.zoom,
                        self.camera.pan_x,
                        self.camera.pan_y,
                        self.overlay.width,
                        self.overlay.height,
                    );
                    if let Some((tx, ty)) = target {
                        changed = self.overlay.paint(tx as i64, ty as i64);
                    }
                },
                Tool::NoTool => {},
            }
        }
        self.cursor_x = px;
        self.cursor_y = py;
        changed
    }

    /// The page to show on a step forward (right arrow), or `None` on the
    /// last page or without a document.
    pub fn next_page(&self) -> (r: Option<u16>)
        requires
            self.wf(),
        ensures
            r is Some <==> self.navigator.current_page + 1 < self.navigator.total_pages,
            r matches Some(p) ==> p == self.navigator.current_page + 1,
    {
        self.navigator.next()
    }

    /// The page to show on a step back (left arrow), or `None` on the first
    /// page.
    pub fn previous_page(&self) -> (r: Option<u16>)
        requires
            self.wf(),
        ensures
            r is Some <==> self.navigator.current_page > 0,
            r matches Some(p) ==> p + 1 == self.navigator.current_page,
    {
        self.navigator.previous()
    }

    /// Shows the rasterized page `index`: it becomes the current page and the
    /// overlay is replaced by a clear one of the bitmap's size. An index past
    /// the document is ignored. Returns whether the page was shown.
    pub fn show_page(&mut self, index: u16, bitmap: &PageBitmap) -> (shown: bool)
        requires
            old(self).wf(),
            bitmap.wf(),
        ensures
            final(self).wf(),
            shown == (index < old(self).navigator.total_pages),
            final(self).navigator.total_pages == old(self).navigator.total_pages,
            shown ==> final(self).navigator.current_page == index
                && final(self).overlay.width == bitmap.width
                && final(self).overlay.height == bitmap.height
                && final(self).overlay.is_clear(),
            !shown ==> final(self).navigator == old(self).navigator
                && final(self).overlay == old(self).overlay,
            final(self).viewport == old(self).viewport,
            final(self).camera == old(self).camera,
            final(self).ui == old(self).ui,
    {
        if self.navigator.go_to(index) {
            // The bitmap's data, held in memory, bounds the overlay's size.
            let n = bitmap.data.len();
            assert(n == bitmap.width * bitmap.height * 4);
            self.overlay = OverlayBuffer::new(bitmap.width, bitmap.height);
            true
        } else {
            false
        }
    }
}

} // verus!
