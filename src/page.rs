//! Page bitmaps and navigation between the pages of a document.
use vstd::prelude::*;

verus! {

/// A rasterized page: `width * height` pixels of 4 bytes (BGRA), row by row.
pub struct PageBitmap {
    pub width: u32,
    pub height: u32,
    pub data: Vec<u8>,
}

impl PageBitmap {
    /// The data holds exactly 4 bytes for each pixel.
    pub open spec fn wf(&self) -> bool {
        self.data@.len() == self.width * self.height * 4
    }

    /// A bitmap of `width` by `height` pixels over `data`, or `None` where
    /// `data` is not exactly 4 bytes for each pixel.
    pub fn new(width: u32, height: u32, data: Vec<u8>) -> (r: Option<PageBitmap>)
        ensures
            r is Some <==> data@.len() == width * height * 4,
            r matches Some(b) ==> b.wf() && b.width == width && b.height == height && b.data@
                == data@,
    {
        assert(width as int * height as int * 4 <= 0x4_0000_0000_0000_0000) by (nonlinear_arith)
            requires
                width <= u32::MAX,
                height <= u32::MAX,
        ;
        let n = width as u128 * height as u128 * 4;
        if data.len() as u128 == n {
            Some(PageBitmap { width, height, data })
        } else {
            None
        }
    }

    /// The stand-in for a missing page: one opaque black pixel.
    pub fn fallback() -> (r: PageBitmap)
        ensures
            r.wf(),
            r.width == 1,
            r.height == 1,
            r.data@ == seq![0u8, 0u8, 0u8, 255u8],
    {
        let mut data: Vec<u8> = Vec::new();
        data.push(0);
        data.push(0);
        data.push(0);
        data.push(255);
        proof {
            assert(data@ =~= seq![0u8, 0u8, 0u8, 255u8]);
            assert(data@.len() == 1 * 1 * 4);
        }
        PageBitmap { width: 1, height: 1, data }
    }
}

/// The current page of a document of `total_pages` pages.
#[derive(Clone, Copy, PartialEq, Eq, Debug)]
pub struct PageNavigator {
    pub current_page: u16,
    pub total_pages: u16,
}

impl PageNavigator {
    /// With a document the current page is one of its pages; without one
    /// (no pages) it is 0.
    pub open spec fn wf(&self) -> bool {
        if self.total_pages == 0 {
            self.current_page == 0
        } else {
            self.current_page < self.total_pages
        }
    }

    /// The first page of a document of `total_pages` pages.
    pub fn new(total_pages: u16) -> (r: PageNavigator)
        ensures
            r.wf(),
            r.current_page == 0,
            r.total_pages == total_pages,
    {
        PageNavigator { current_page: 0, total_pages }
    }

    /// The page after the current one, or `None` on the last page (and
    /// without a document).
    pub fn next(&self) -> (r: Option<u16>)
        requires
            self.wf(),
        ensures
            r is Some <==> self.current_page + 1 < self.total_pages,
            r matches Some(p) ==> p == self.current_page + 1 && p < self.total_pages,
            r matches Some(p) ==> step(*self, true) == (PageNavigator { current_page: p, ..*self }),
            r is None ==> step(*self, true) == *self,
    {
        if (self.current_page as u32) + 1 < self.total_pages as u32 {
            Some(self.current_page + 1)
        } else {
            None
        }
    }

    /// The page before the current one, or `None` on the first page.
    pub fn previous(&self) -> (r: Option<u16>)
        requires
            self.wf(),
        ensures
            r is Some <==> self.current_page > 0,
            r matches Some(p) ==> p + 1 == self.current_page && p < self.total_pages,
            r matches Some(p) ==> step(*self, false) == (PageNavigator { current_page: p, ..*self }),
            r is None ==> step(*self, false) == *self,
    {
        if self.current_page > 0 {
            Some(self.current_page - 1)
        } else {
            None
        }
    }

    /// Makes `page` the current page, where it is a page of the document;
    /// returns whether it did.
    pub fn go_to(&mut self, page: u16) -> (moved: bool)
        requires
            old(self).wf(),
        ensures
            final(self).wf(),
            moved == (page < old(self).total_pages),
            final(self).total_pages == old(self).total_pages,
            final(self).current_page == if moved {
                page
            } else {
                old(self).current_page
            },
    {
        if page < self.total_pages {
            self.current_page = page;
            true
        } else {
            false
        }
    }
}

/// One key press on the navigator: a step forward (`true`) moves to the next
/// page if there is one, a step back to the previous page if there is one.
pub open spec fn step(nav: PageNavigator, forward: bool) -> PageNavigator {
    if forward {
        if nav.current_page + 1 < nav.total_pages {
            PageNavigator { current_page: (nav.current_page + 1) as u16, ..nav }
        } else {
            nav
        }
    } else {
        if nav.current_page > 0 {
            PageNavigator { current_page: (nav.current_page - 1) as u16, ..nav }
        } else {
            nav
        }
    }
}

/// The navigator after the key presses `steps`, in order.
pub open spec fn walk(nav: PageNavigator, steps: Seq<bool>) -> PageNavigator
    decreases steps.len(),
{
    if steps.len() == 0 {
        nav
    } else {
        walk(step(nav, steps[0]), steps.drop_first())
    }
}

/// Whatever the key presses, the current page never passes the last page nor
/// goes below the first, and the page count is kept.
pub proof fn lemma_navigation_in_range(nav: PageNavigator, steps: Seq<bool>)
    requires
        nav.wf(),
    ensures
        walk(nav, steps).wf(),
        walk(nav, steps).total_pages == nav.total_pages,
        nav.total_pages > 0 ==> walk(nav, steps).current_page <= nav.total_pages - 1,
    decreases steps.len(),
{
    if steps.len() > 0 {
        lemma_navigation_in_range(step(nav, steps[0]), steps.drop_first());
    }
}

} // verus!
