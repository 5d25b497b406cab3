use vstd::prelude::*;

verus! {

/// A rectangle of the framebuffer, in pixels.
#[derive(Debug, Clone, Copy, PartialEq, Eq, Structural)]
pub struct Rect {
    pub x: u16,
    pub y: u16,
    pub width: u16,
    pub height: u16,
}

/// The size of the remote framebuffer, in pixels.
#[derive(Debug, Clone, Copy, PartialEq, Eq, Structural)]
pub struct Screen {
    pub width: u16,
    pub height: u16,
}

impl Rect {
    /// The number of pixels that the rectangle covers.
    pub open spec fn area(self) -> int {
        self.width as int * self.height as int
    }

    /// Whether the rectangle lies wholly inside a framebuffer of the given size.
    pub open spec fn fits(self, screen: Screen) -> bool {
        &&& self.x + self.width <= screen.width
        &&& self.y + self.height <= screen.height
    }

    /// Whether the rectangle lies wholly inside another one.
    pub open spec fn within(self, outer: Rect) -> bool {
        &&& outer.x <= self.x
        &&& outer.y <= self.y
        &&& self.x + self.width <= outer.x + outer.width
        &&& self.y + self.height <= outer.y + outer.height
    }

    /// Tests whether the rectangle lies wholly inside `screen`.
    pub fn is_within(&self, screen: &Screen) -> (inside: bool)
        ensures
            inside == self.fits(*screen),
    {
        let right: u32 = self.x as u32 + self.width as u32;
        let bottom: u32 = self.y as u32 + self.height as u32;
        right <= screen.width as u32 && bottom <= screen.height as u32
    }
}

/// What lies inside a rectangle that lies inside a screen lies inside the screen.
pub proof fn lemma_within_fits(inner: Rect, outer: Rect, screen: Screen)
    requires
        inner.within(outer),
        outer.fits(screen),
    ensures
        inner.fits(screen),
{
}

impl From<(u16, u16)> for Screen {
    fn from(tuple: (u16, u16)) -> (screen: Self)
    {
        Screen { width: tuple.0, height: tuple.1 }
    }
}

impl vstd::std_specs::convert::FromSpecImpl<(u16, u16)> for Screen {
    open spec fn obeys_from_spec() -> bool {
        true
    }

    open spec fn from_spec(tuple: (u16, u16)) -> Self {
        Screen { width: tuple.0, height: tuple.1 }
    }
}

} // verus!
