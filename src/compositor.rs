//! Frame bookkeeping of a display-server surface: a redraw is committed only
//! after something changed.
use vstd::prelude::*;

verus! {

/// Display server backend.
#[derive(Clone, Copy, Debug, PartialEq, Eq, Structural)]
pub enum Backend {
    X11,
    Wayland,
}

/// Surface state: backend, scroll offset in pixels, and whether a redraw is
/// pending.
pub struct Compositor {
    backend: Backend,
    scroll_offset_y: i64,
    needs_redraw: bool,
}

impl Compositor {
    pub closed spec fn spec_backend(&self) -> Backend {
        self.backend
    }

    pub closed spec fn spec_scroll(&self) -> i64 {
        self.scroll_offset_y
    }

    pub closed spec fn spec_needs_redraw(&self) -> bool {
        self.needs_redraw
    }

    /// A surface at offset 0 with nothing to redraw.
    pub fn new(backend: Backend) -> (r: Compositor)
        ensures
            r.spec_backend() == backend,
            r.spec_scroll() == 0,
            !r.spec_needs_redraw(),
    {
        Compositor { backend, scroll_offset_y: 0, needs_redraw: false }
    }

    /// Sets the scroll offset; a redraw is then pending.
    pub fn set_scroll(&mut self, offset_y: i64)
        ensures
            final(self).spec_backend() == old(self).spec_backend(),
            final(self).spec_scroll() == offset_y,
            final(self).spec_needs_redraw(),
    {
        self.scroll_offset_y = offset_y;
        self.needs_redraw = true;
    }

    /// Marks a region as changed; a redraw is then pending.
    pub fn damage(&mut self, x: i32, y: i32, width: i32, height: i32)
        ensures
            final(self).spec_backend() == old(self).spec_backend(),
            final(self).spec_scroll() == old(self).spec_scroll(),
            final(self).spec_needs_redraw(),
    {
        self.needs_redraw = true;
    }

    /// Commits the frame: returns whether a redraw was pending, which it no
    /// longer is.
    pub fn commit(&mut self) -> (r: bool)
        ensures
            r == old(self).spec_needs_redraw(),
            final(self).spec_backend() == old(self).spec_backend(),
            final(self).spec_scroll() == old(self).spec_scroll(),
            !final(self).spec_needs_redraw(),
    {
        if !self.needs_redraw {
            return false;
        }
        self.needs_redraw = false;
        true
    }

    /// Whether a redraw is pending.
    pub fn needs_redraw(&self) -> (r: bool)
        ensures
            r == self.spec_needs_redraw(),
    {
        self.needs_redraw
    }

    /// The scroll offset.
    pub fn scroll_offset(&self) -> (r: i64)
        ensures
            r == self.spec_scroll(),
    {
        self.scroll_offset_y
    }
}

} // verus!
