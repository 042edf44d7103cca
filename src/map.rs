use vstd::prelude::*;

verus! {

/// A rectangular grid of cells, each with a `blocked` and an `encounter`
/// flag, stored row by row. Cells outside the grid are blocked and never
/// trigger an encounter.
pub struct OverworldMap {
    pub width: i32,
    pub height: i32,
    pub blocked: Vec<bool>,
    pub encounter: Vec<bool>,
}

/// Row-major position of cell `(x, y)` in a grid of the given width.
pub open spec fn cell_index(width: int, x: int, y: int) -> int {
    y * width + x
}

proof fn lemma_cell_index_bounds(width: int, height: int, x: int, y: int)
    requires
        0 <= x < width,
        0 <= y < height,
    ensures
        0 <= cell_index(width, x, y) < width * height,
{
    assert(0 <= y * width) by (nonlinear_arith)
        requires
            0 <= y,
            0 < width,
    ;
    assert(y * width + x < width * height) by (nonlinear_arith)
        requires
            0 <= x < width,
            0 <= y < height,
    ;
}

proof fn lemma_cell_index_injective(width: int, x1: int, y1: int, x2: int, y2: int)
    requires
        0 <= x1 < width,
        0 <= x2 < width,
        0 <= y1,
        0 <= y2,
        cell_index(width, x1, y1) == cell_index(width, x2, y2),
    ensures
        x1 == x2,
        y1 == y2,
{
    assert(y1 == y2) by (nonlinear_arith)
        requires
            0 <= x1 < width,
            0 <= x2 < width,
            y1 * width + x1 == y2 * width + x2,
    {
        if y1 < y2 {
            assert((y2 - y1) * width >= width);
        } else if y1 > y2 {
            assert((y1 - y2) * width >= width);
        }
    }
}

impl OverworldMap {
    /// Internal consistency: positive dimensions and one flag per cell.
    pub open spec fn wf(&self) -> bool {
        &&& self.width > 0
        &&& self.height > 0
        &&& self.width * self.height <= i32::MAX
        &&& self.blocked@.len() == self.width * self.height
        &&& self.encounter@.len() == self.width * self.height
    }

    pub open spec fn in_bounds_spec(&self, x: int, y: int) -> bool {
        0 <= x < self.width && 0 <= y < self.height
    }

    /// Whether movement into `(x, y)` is prohibited.
    pub open spec fn blocked_at(&self, x: int, y: int) -> bool {
        !self.in_bounds_spec(x, y) || self.blocked@[cell_index(self.width as int, x, y)]
    }

    /// Whether arriving on `(x, y)` triggers an encounter.
    pub open spec fn encounter_at(&self, x: int, y: int) -> bool {
        self.in_bounds_spec(x, y) && self.encounter@[cell_index(self.width as int, x, y)]
    }

    /// Whether `wf` holds.
    pub fn is_well_formed(&self) -> (r: bool)
        ensures
            r == self.wf(),
    {
        if self.width <= 0 || self.height <= 0 {
            return false;
        }
        assert(0 < self.width * self.height <= 0x7fff_ffff * 0x7fff_ffff) by (nonlinear_arith)
            requires
                0 < self.width <= 0x7fff_ffff,
                0 < self.height <= 0x7fff_ffff,
        ;
        let cells = self.width as i64 * self.height as i64;
        if cells > i32::MAX as i64 {
            return false;
        }
        self.blocked.len() == cells as usize && self.encounter.len() == cells as usize
    }

    /// An open grid of `width` by `height` cells: nothing blocked inside it,
    /// no encounters anywhere.
    pub fn new(width: i32, height: i32) -> (r: Self)
        requires
            width > 0,
            height > 0,
            width * height <= i32::MAX,
        ensures
            r.wf(),
            r.width == width,
            r.height == height,
            forall|x: int, y: int| #[trigger] r.blocked_at(x, y) <==> !r.in_bounds_spec(x, y),
            forall|x: int, y: int| !#[trigger] r.encounter_at(x, y),
    {
        let size = (width * height) as usize;
        let blocked = vec![false; size];
        let encounter = vec![false; size];
        let r = OverworldMap { width, height, blocked, encounter };
        assert forall|x: int, y: int| #[trigger] r.blocked_at(x, y) <==> !r.in_bounds_spec(x, y) by {
            if r.in_bounds_spec(x, y) {
                lemma_cell_index_bounds(width as int, height as int, x, y);
            }
        }
        assert forall|x: int, y: int| !#[trigger] r.encounter_at(x, y) by {
            if r.in_bounds_spec(x, y) {
                lemma_cell_index_bounds(width as int, height as int, x, y);
            }
        }
        r
    }

    fn idx(&self, x: i32, y: i32) -> (r: usize)
        requires
            self.wf(),
            self.in_bounds_spec(x as int, y as int),
        ensures
            r as int == cell_index(self.width as int, x as int, y as int),
            r < self.blocked@.len(),
            r < self.encounter@.len(),
    {
        proof {
            lemma_cell_index_bounds(self.width as int, self.height as int, x as int, y as int);
            assert(y * self.width <= y * self.width + x);
        }
        (y * self.width + x) as usize
    }

    pub fn in_bounds(&self, x: i32, y: i32) -> (r: bool)
        ensures
            r == self.in_bounds_spec(x as int, y as int),
    {
        x >= 0 && x < self.width && y >= 0 && y < self.height
    }

    pub fn is_blocked(&self, x: i32, y: i32) -> (r: bool)
        requires
            self.wf(),
        ensures
            r == self.blocked_at(x as int, y as int),
    {
        !self.in_bounds(x, y) || self.blocked[self.idx(x, y)]
    }

    pub fn is_encounter(&self, x: i32, y: i32) -> (r: bool)
        requires
            self.wf(),
        ensures
            r == self.encounter_at(x as int, y as int),
    {
        self.in_bounds(x, y) && self.encounter[self.idx(x, y)]
    }

    /// Sets both flags of one cell; a cell outside the grid is ignored.
    pub fn set_tile(&mut self, x: i32, y: i32, blocked: bool, encounter: bool)
        requires
            old(self).wf(),
        ensures
            final(self).wf(),
            final(self).width == old(self).width,
            final(self).height == old(self).height,
            forall|cx: int, cy: int| #[trigger]
                final(self).blocked_at(cx, cy) == if old(self).in_bounds_spec(x as int, y as int)
                    && cx == x && cy == y {
                    blocked
                } else {
                    old(self).blocked_at(cx, cy)
                },
            forall|cx: int, cy: int| #[trigger]
                final(self).encounter_at(cx, cy) == if old(self).in_bounds_spec(
                    x as int,
                    y as int,
                ) && cx == x && cy == y {
                    encounter
                } else {
                    old(self).encounter_at(cx, cy)
                },
    {
        if !self.in_bounds(x, y) {
            return;
        }
        let idx = self.idx(x, y);
        self.blocked.set(idx, blocked);
        self.encounter.set(idx, encounter);
        proof {
            let w = self.width as int;
            let pre = *old(self);
            assert forall|cx: int, cy: int|
                #![trigger self.blocked_at(cx, cy)]
                #![trigger self.encounter_at(cx, cy)]
                self.blocked_at(cx, cy) == if cx == x && cy == y {
                blocked
            } else {
                pre.blocked_at(cx, cy)
            } && self.encounter_at(cx, cy) == if cx == x && cy == y {
                encounter
            } else {
                pre.encounter_at(cx, cy)
            } by {
                if self.in_bounds_spec(cx, cy) && (cx != x || cy != y) {
                    lemma_cell_index_bounds(w, self.height as int, cx, cy);
                    if cell_index(w, cx, cy) == idx as int {
                        lemma_cell_index_injective(w, cx, cy, x as int, y as int);
                    }
                }
            }
        }
    }
}

} // verus!
