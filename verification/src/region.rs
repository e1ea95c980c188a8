//! Source rectangles of sprites.

use vstd::prelude::*;

verus! {

/// An axis-aligned rectangle inside a texture, in world units.
#[derive(Clone, Copy, PartialEq, Eq, Structural, Debug)]
pub struct Region {
    pub x: i64,
    pub y: i64,
    pub width: i64,
    pub height: i64,
}

/// The regions of one row of a sprite sheet, handed out from left to right.
#[derive(Clone, Copy, PartialEq, Eq, Structural, Debug)]
pub struct RegionRow {
    /// The region that comes next; `None` once the row has run off the
    /// coordinate range.
    pub next_region: Option<Region>,
}

impl Region {
    /// The rectangle with corner `(x, y)` and the given size.
    pub fn new(x: i64, y: i64, width: i64, height: i64) -> (r: Region)
        ensures
            r == (Region { x, y, width, height }),
    {
        Region { x, y, width, height }
    }

    /// The row of equal regions that starts with `Region::new(x, y, width,
    /// height)` and steps right by `width`.
    pub fn row(x: i64, y: i64, width: i64, height: i64) -> (row: RegionRow)
        ensures
            row.next_region == Some(Region { x, y, width, height }),
    {
        RegionRow { next_region: Some(Region::new(x, y, width, height)) }
    }

    /// The region one width to the right of this one, if its corner is still
    /// a coordinate.
    pub open spec fn right_neighbour(self) -> Option<Region> {
        if i64::MIN <= self.x + self.width <= i64::MAX {
            Some(Region { x: (self.x + self.width) as i64, ..self })
        } else {
            None
        }
    }
}

impl RegionRow {
    /// The first `n` regions of a row that is about to hand out `next`.
    pub open spec fn spec_take(next: Option<Region>, n: nat) -> Seq<Region>
        decreases n,
    {
        match next {
            Some(r) if n > 0 => seq![r] + Self::spec_take(r.right_neighbour(), (n - 1) as nat),
            _ => Seq::empty(),
        }
    }

    /// Hands out the next region of the row and steps one width to the
    /// right. The row ends where the next corner would leave the coordinate
    /// range.
    pub fn next(&mut self) -> (r: Option<Region>)
        ensures
            r == old(self).next_region,
            final(self).next_region == (match old(self).next_region {
                Some(cur) => cur.right_neighbour(),
                None => None,
            }),
    {
        match self.next_region {
            Some(cur) => {
                self.next_region = match cur.x.checked_add(cur.width) {
                    Some(x) => Some(Region { x, ..cur }),
                    None => None,
                };
                Some(cur)
            },
            None => None,
        }
    }

    /// The next `n` regions of the row, fewer where the row ends before.
    pub fn take(self, n: usize) -> (regions: Vec<Region>)
        ensures
            regions@ == Self::spec_take(self.next_region, n as nat),
    {
        let mut row = self;
        let mut regions: Vec<Region> = Vec::new();
        let mut i: usize = 0;
        while i < n && row.next_region.is_some()
            invariant
                i <= n,
                Self::spec_take(self.next_region, n as nat) == regions@ + Self::spec_take(
                    row.next_region,
                    (n - i) as nat,
                ),
            decreases n - i,
        {
            let r = row.next();
            regions.push(r.unwrap());
            i += 1;
        }
        regions
    }
}

} // verus!
