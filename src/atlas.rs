//! Bookkeeping for a cache of pre-rendered lines: which lines must be drawn
//! again before the next blit.
use vstd::prelude::*;

verus! {

/// Configuration of the line cache.
pub struct AtlasConfig {
    /// Most lines the cache holds.
    pub max_cached_lines: usize,
    /// Width of the cache texture in pixels.
    pub texture_width: u32,
    /// Height of one cached line in pixels.
    pub line_height: u32,
}

impl Default for AtlasConfig {
    fn default() -> (r: AtlasConfig)
        ensures
            r.max_cached_lines == 1000,
            r.texture_width == 4096,
            r.line_height == 21,
    {
        AtlasConfig { max_cached_lines: 1000, texture_width: 4096, line_height: 21 }
    }
}

/// The line cache's list of lines to redraw, each listed once, in the order
/// they were invalidated.
pub struct MetalBlitter {
    config: AtlasConfig,
    dirty_lines: Vec<usize>,
}

impl MetalBlitter {
    /// Lines waiting to be redrawn.
    pub closed spec fn dirty(&self) -> Seq<usize> {
        self.dirty_lines@
    }

    /// The configuration the cache was made with.
    pub closed spec fn spec_config(&self) -> AtlasConfig {
        self.config
    }

    /// A cache with nothing to redraw.
    pub fn new(config: AtlasConfig) -> (r: MetalBlitter)
        ensures
            r.dirty().len() == 0,
            r.spec_config() == config,
    {
        MetalBlitter { config, dirty_lines: Vec::new() }
    }

    /// Lines waiting to be redrawn.
    pub fn dirty_lines(&self) -> (r: &Vec<usize>)
        ensures
            r@ == self.dirty(),
    {
        &self.dirty_lines
    }

    /// Marks a line for redrawing, once.
    pub fn invalidate_line(&mut self, line_number: usize)
        ensures
            final(self).spec_config() == old(self).spec_config(),
            old(self).dirty().contains(line_number) ==> final(self).dirty() == old(self).dirty(),
            !old(self).dirty().contains(line_number) ==> final(self).dirty() == old(self).dirty().push(
                line_number,
            ),
    {
        let mut i: usize = 0;
        while i < self.dirty_lines.len()
            invariant
                i <= self.dirty_lines@.len(),
                forall|k: int| 0 <= k < i ==> self.dirty_lines@[k] != line_number,
            decreases self.dirty_lines@.len() - i,
        {
            if self.dirty_lines[i] == line_number {
                return;
            }
            i = i + 1;
        }
        self.dirty_lines.push(line_number);
    }

    /// Forgets every pending line (the whole cache is redrawn instead).
    pub fn invalidate_all(&mut self)
        ensures
            final(self).spec_config() == old(self).spec_config(),
            final(self).dirty().len() == 0,
    {
        self.dirty_lines.clear();
    }

    /// Redraws the pending lines into the cache, leaving none pending.
    pub fn update_atlas(&mut self)
        ensures
            final(self).spec_config() == old(self).spec_config(),
            final(self).dirty().len() == 0,
    {
        self.dirty_lines.clear();
    }
}

} // verus!
