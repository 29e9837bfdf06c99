//! The fixed toolbar and side panel, and hit testing of pointer presses
//! against them.
use vstd::prelude::*;

verus! {

/// The active pointer tool; `NoTool` leaves pointer drags without effect.
#[derive(Clone, Copy, PartialEq, Eq, Debug)]
pub enum Tool {
    NoTool,
    Pan,
    Highlighter,
}

/// Height of the bottom bar, in pixels.
pub const BOTTOM_BAR_HEIGHT: u32 = 80;

/// Width of the side panel, in pixels.
pub const SIDE_PANEL_WIDTH: u32 = 200;

/// Layout and toggles of the toolbar.
#[derive(Clone, Copy, PartialEq, Eq, Debug)]
pub struct UiState {
    pub active_tool: Tool,
    pub is_carousel_open: bool,
    pub bottom_bar_height: u32,
    pub side_panel_width: u32,
}

/// The press at row `py` falls in the bottom bar of a viewport `h` pixels
/// high.
pub open spec fn in_bottom_bar(bar: int, py: int, h: int) -> bool {
    py > h - bar
}

/// Column `px` lies strictly between `lo` and `hi` pixels right of the centre
/// `w/2` of a viewport `w` pixels wide (both sides doubled, so exact).
pub open spec fn in_zone(px: int, w: int, lo: int, hi: int) -> bool {
    w + 2 * lo < 2 * px && 2 * px < w + 2 * hi
}

/// The menu button, 100 to 60 pixels left of the centre.
pub open spec fn on_menu_button(px: int, w: int) -> bool {
    in_zone(px, w, -100, -60)
}

/// The tool button, within 20 pixels of the centre.
pub open spec fn on_tool_button(px: int, w: int) -> bool {
    in_zone(px, w, -20, 20)
}

/// The search button, 60 to 100 pixels right of the centre.
pub open spec fn on_search_button(px: int, w: int) -> bool {
    in_zone(px, w, 60, 100)
}

/// The tool after a click on the tool button.
pub open spec fn toggled(t: Tool) -> Tool {
    match t {
        Tool::Highlighter => Tool::Pan,
        _ => Tool::Highlighter,
    }
}

impl UiState {
    /// The start state: the pan tool, the panel closed, the fixed layout.
    pub fn new() -> (r: UiState)
        ensures
            r.active_tool == Tool::Pan,
            !r.is_carousel_open,
            r.bottom_bar_height == BOTTOM_BAR_HEIGHT,
            r.side_panel_width == SIDE_PANEL_WIDTH,
    {
        UiState {
            active_tool: Tool::Pan,
            is_carousel_open: false,
            bottom_bar_height: BOTTOM_BAR_HEIGHT,
            side_panel_width: SIDE_PANEL_WIDTH,
        }
    }

    /// Whether a press at pixel `(px, py)` of a `w` by `h` viewport is
    /// consumed by the toolbar or the open side panel.
    pub open spec fn consumes(&self, px: int, py: int, w: int, h: int) -> bool {
        in_bottom_bar(self.bottom_bar_height as int, py, h) || (self.is_carousel_open && px
            < self.side_panel_width)
    }

    /// Hit tests a press at pixel `(px, py)` of a `w` by `h` viewport. A
    /// press in the bottom bar is consumed; on the menu button it opens or
    /// closes the side panel, on the tool button it switches between the
    /// highlighter and the pan tool. Otherwise a press on the open side panel
    /// is consumed. Returns whether the press was consumed.
    pub fn hit_test(&mut self, px: i64, py: i64, w: u32, h: u32) -> (consumed: bool)
        ensures
            consumed == old(self).consumes(px as int, py as int, w as int, h as int),
            final(self).bottom_bar_height == old(self).bottom_bar_height,
            final(self).side_panel_width == old(self).side_panel_width,
            final(self).is_carousel_open == if in_bottom_bar(
                old(self).bottom_bar_height as int,
                py as int,
                h as int,
            ) && on_menu_button(px as int, w as int) {
                !old(self).is_carousel_open
            } else {
                old(self).is_carousel_open
            },
            final(self).active_tool == if in_bottom_bar(
                old(self).bottom_bar_height as int,
                py as int,
                h as int,
            ) && on_tool_button(px as int, w as int) {
                toggled(old(self).active_tool)
            } else {
                old(self).active_tool
            },
    {
        let x = 2 * (px as i128);
        let wi = w as i128;
        if (py as i128) > (h as i128) - (self.bottom_bar_height as i128) {
            if wi - 200 < x && x < wi - 120 {
                self.is_carousel_open = !self.is_carousel_open;
            } else if wi - 40 < x && x < wi + 40 {
                self.active_tool = match self.active_tool {
                    Tool::Highlighter => Tool::Pan,
                    _ => Tool::Highlighter,
                };
            }
            return true;
        }
        self.is_carousel_open && (px as i128) < (self.side_panel_width as i128)
    }
}

} // verus!
