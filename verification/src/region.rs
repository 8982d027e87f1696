//! Capture rectangles and how they are fitted to the screen.

use vstd::prelude::*;

verus! {

/// A rectangle in screen pixel coordinates. The same shape describes the
/// area to capture and the bounds of the virtual screen.
#[derive(Clone, Copy, Debug, PartialEq, Eq, Structural)]
pub struct CaptureRegion {
    pub x: i32,
    pub y: i32,
    pub width: u32,
    pub height: u32,
}

impl CaptureRegion {
    /// The region covers at least one pixel.
    pub open spec fn non_empty(self) -> bool {
        self.width > 0 && self.height > 0
    }

    /// First column right of the region.
    pub open spec fn right(self) -> int {
        self.x + self.width
    }

    /// First row below the region.
    pub open spec fn bottom(self) -> int {
        self.y + self.height
    }

    /// Every pixel of `self` is a pixel of `outer`.
    pub open spec fn inside(self, outer: CaptureRegion) -> bool {
        &&& outer.x <= self.x
        &&& outer.y <= self.y
        &&& self.right() <= outer.right()
        &&& self.bottom() <= outer.bottom()
    }

    /// The pixel at column `px`, row `py` lies in the region.
    pub open spec fn covers(self, px: int, py: int) -> bool {
        self.x <= px < self.right() && self.y <= py < self.bottom()
    }

    /// The part of `self` that lies on `screen`, if there is any.
    pub open spec fn clip_spec(self, screen: CaptureRegion) -> Option<CaptureRegion> {
        let left = if self.x >= screen.x { self.x as int } else { screen.x as int };
        let top = if self.y >= screen.y { self.y as int } else { screen.y as int };
        let right = if self.right() <= screen.right() { self.right() } else { screen.right() };
        let bottom = if self.bottom() <= screen.bottom() { self.bottom() } else { screen.bottom() };
        if left < right && top < bottom {
            Some(
                CaptureRegion {
                    x: left as i32,
                    y: top as i32,
                    width: (right - left) as u32,
                    height: (bottom - top) as u32,
                },
            )
        } else {
            None
        }
    }

    pub fn new(x: i32, y: i32, width: u32, height: u32) -> (r: CaptureRegion)
        ensures
            r == (CaptureRegion { x, y, width, height }),
    {
        CaptureRegion { x, y, width, height }
    }

    /// Whether the region covers at least one pixel.
    pub fn is_non_empty(&self) -> (b: bool)
        ensures
            b == self.non_empty(),
    {
        self.width > 0 && self.height > 0
    }

    /// Whether the region lies wholly within `outer`.
    pub fn is_inside(&self, outer: &CaptureRegion) -> (b: bool)
        ensures
            b == self.inside(*outer),
    {
        outer.x <= self.x && outer.y <= self.y && self.x as i64 + self.width as i64
            <= outer.x as i64 + outer.width as i64 && self.y as i64 + self.height as i64
            <= outer.y as i64 + outer.height as i64
    }

    /// Cuts the region down to what lies on `screen`. A region that reaches
    /// over an edge is trimmed silently; one with no pixel on the screen
    /// gives `None`.
    pub fn clip(&self, screen: &CaptureRegion) -> (r: Option<CaptureRegion>)
        ensures
            r == self.clip_spec(*screen),
    {
        let left: i64 = if self.x >= screen.x { self.x as i64 } else { screen.x as i64 };
        let top: i64 = if self.y >= screen.y { self.y as i64 } else { screen.y as i64 };
        let own_right: i64 = self.x as i64 + self.width as i64;
        let screen_right: i64 = screen.x as i64 + screen.width as i64;
        let own_bottom: i64 = self.y as i64 + self.height as i64;
        let screen_bottom: i64 = screen.y as i64 + screen.height as i64;
        let right: i64 = if own_right <= screen_right { own_right } else { screen_right };
        let bottom: i64 = if own_bottom <= screen_bottom { own_bottom } else { screen_bottom };
        if left < right && top < bottom {
            Some(
                CaptureRegion {
                    x: left as i32,
                    y: top as i32,
                    width: (right - left) as u32,
                    height: (bottom - top) as u32,
                },
            )
        } else {
            None
        }
    }

    /// Moves the region's corner to (`nx`, `ny`), keeping its size, and
    /// reports whether that changed anything.
    pub fn move_to(&mut self, nx: i32, ny: i32) -> (changed: bool)
        ensures
            *final(self) == (CaptureRegion { x: nx, y: ny, ..*old(self) }),
            changed == (old(self).x != nx || old(self).y != ny),
    {
        if self.x != nx || self.y != ny {
            self.x = nx;
            self.y = ny;
            true
        } else {
            false
        }
    }
}

/// A clipped region is never empty, lies on the screen and within the
/// region it came from, and holds exactly the pixels that both cover.
pub proof fn clip_is_intersection(region: CaptureRegion, screen: CaptureRegion)
    ensures
        match region.clip_spec(screen) {
            Some(c) => {
                &&& c.non_empty()
                &&& c.inside(screen)
                &&& c.inside(region)
                &&& forall|px: int, py: int|
                    c.covers(px, py) <==> (region.covers(px, py) && screen.covers(px, py))
            },
            None => forall|px: int, py: int| !(region.covers(px, py) && screen.covers(px, py)),
        },
{
}

/// A non-empty region that already lies on the screen is captured as
/// requested: clipping returns it unchanged, so width and height are kept.
pub proof fn clip_keeps_region_inside(region: CaptureRegion, screen: CaptureRegion)
    requires
        region.non_empty(),
        region.inside(screen),
    ensures
        region.clip_spec(screen) == Some(region),
{
}

/// Clipping twice against the same screen changes nothing more.
pub proof fn clip_is_idempotent(region: CaptureRegion, screen: CaptureRegion)
    ensures
        match region.clip_spec(screen) {
            Some(c) => c.clip_spec(screen) == Some(c),
            None => true,
        },
{
}

} // verus!
