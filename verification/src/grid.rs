//! The grid world: obstacle layout, resource spots, and fog-of-war coverage.
//!
//! A world is generated deterministically from a seed and its dimensions: the
//! obstacle matrix comes from one raw generator draw per cell compared against
//! a fixed density threshold, and exactly [`RESOURCE_SPOT_COUNT`] resource
//! spots are drawn uniformly over the grid (they may repeat and may land on an
//! obstacle cell; both are kept as-is). Fog starts fully covered and cells are
//! only ever uncovered, never re-covered.

use vstd::prelude::*;
use vstd::arithmetic::div_mod::lemma_div_is_ordered;
use crate::rng::{SeededRng, pcg_u32, pcg_range_draw};

verus! {

/// How many resource spots a generated world holds.
pub const RESOURCE_SPOT_COUNT: usize = 10;

/// A cell is an obstacle when a uniform 24-bit draw, read as a fraction of
/// the unit interval, exceeds 0.7. This constant is 0.7 scaled by 2^24
/// (rounded to the nearest integer, which is exact for the 24-bit fraction
/// the draw provides), so the comparison below is the integer form of that
/// threshold test; about 30% of cells become obstacles.
pub const OBSTACLE_CUTOFF: u32 = 11744051;

/// Construction fails only on a degenerate grid.
#[derive(Clone, Copy, PartialEq, Eq, Structural, Debug)]
pub enum WorldError {
    /// A zero-sized grid was requested.
    EmptyGrid,
}

/// A cap on the number of cells, so that counting cells and scaling the count
/// by 100 stays within machine integers.
pub const MAX_CELLS: u64 = 0x1_0000_0000;

/// Whether the cell-`index` generator draw makes that cell an obstacle.
pub open spec fn obstacle_flag(seed: u64, index: nat) -> bool {
    (pcg_u32(seed, index) >> 8) > OBSTACLE_CUTOFF
}

/// The bounds of the first `n` bounded draws of resource-spot generation:
/// they alternate between the grid width and the grid height.
pub open spec fn coord_bounds(width: u64, height: u64, n: nat) -> Seq<u64>
    decreases n,
{
    if n == 0 {
        Seq::empty()
    } else if (n - 1) % 2 == 0 {
        coord_bounds(width, height, (n - 1) as nat).push(width)
    } else {
        coord_bounds(width, height, (n - 1) as nat).push(height)
    }
}

/// The `k`-th resource spot that generation with this seed and these
/// dimensions draws, after `width * height` raw obstacle draws.
pub open spec fn spec_spot(seed: u64, width: usize, height: usize, k: int) -> (usize, usize) {
    let cells = (width * height) as nat;
    let w = width as u64;
    let h = height as u64;
    (
        pcg_range_draw(seed, cells, coord_bounds(w, h, (2 * k + 1) as nat)) as usize,
        pcg_range_draw(seed, cells, coord_bounds(w, h, (2 * k + 2) as nat)) as usize,
    )
}

/// Count of explored (fog == false) entries among the first `n` of a row.
pub open spec fn row_explored(row: Seq<bool>, n: int) -> int
    decreases n,
{
    if n <= 0 {
        0
    } else {
        row_explored(row, n - 1) + (if row[n - 1] { 0int } else { 1int })
    }
}

/// Count of explored cells in the first `rows` rows, `width` cells per row.
pub open spec fn explored_upto(fog: Seq<Vec<bool>>, rows: int, width: int) -> int
    decreases rows,
{
    if rows <= 0 {
        0
    } else {
        explored_upto(fog, rows - 1, width) + row_explored(fog[rows - 1]@, width)
    }
}

#[derive(Debug)]
pub struct GridWorld {
    pub width: usize,
    pub height: usize,
    /// `obstacles[y][x]` is true when the cell is impassable. Generated once,
    /// immutable thereafter.
    pub obstacles: Vec<Vec<bool>>,
    /// Ordered collection of grid coordinates; duplicates are possible and a
    /// coordinate may coincide with an obstacle cell.
    pub resource_spots: Vec<(usize, usize)>,
    /// `fog[y][x]` is true while the cell is unexplored.
    pub fog: Vec<Vec<bool>>,
}

impl GridWorld {
    pub open spec fn wf(self) -> bool {
        &&& 1 <= self.width
        &&& 1 <= self.height
        &&& (self.width as int) * (self.height as int) <= MAX_CELLS as int
        &&& self.obstacles@.len() == self.height
        &&& (forall|y: int| 0 <= y < self.height ==> (#[trigger] self.obstacles@[y])@.len() == self.width)
        &&& self.fog@.len() == self.height
        &&& (forall|y: int| 0 <= y < self.height ==> (#[trigger] self.fog@[y])@.len() == self.width)
        &&& (forall|k: int| 0 <= k < self.resource_spots@.len() ==>
                (#[trigger] self.resource_spots@[k]).0 < self.width
                && self.resource_spots@[k].1 < self.height)
    }

    pub open spec fn in_bounds(self, p: (usize, usize)) -> bool {
        p.0 < self.width && p.1 < self.height
    }

    pub open spec fn obstacle_at(self, x: int, y: int) -> bool {
        self.obstacles@[y]@[x]
    }

    pub open spec fn fog_at(self, x: int, y: int) -> bool {
        self.fog@[y]@[x]
    }

    /// A position one can stand on: inside the grid and not an obstacle.
    pub open spec fn spec_passable(self, p: (usize, usize)) -> bool {
        self.in_bounds(p) && !self.obstacle_at(p.0 as int, p.1 as int)
    }

    pub open spec fn explored_cells(self) -> int {
        explored_upto(self.fog@, self.height as int, self.width as int)
    }

    pub open spec fn total_cells(self) -> int {
        self.width * self.height
    }

    pub open spec fn spec_explored_percentage(self) -> int {
        100 * self.explored_cells() / self.total_cells()
    }

    /// What being generated from `seed` pins down: every obstacle cell and
    /// every resource spot is the value the seeded draw sequence dictates,
    /// and the fog is fully covered.
    pub open spec fn is_generated(self, seed: u64) -> bool {
        &&& (forall|y: int, x: int| 0 <= y < self.height && 0 <= x < self.width ==>
                #[trigger] self.obstacles@[y]@[x]
                    == obstacle_flag(seed, (y * self.width + x) as nat))
        &&& (forall|y: int, x: int| 0 <= y < self.height && 0 <= x < self.width ==>
                #[trigger] self.fog@[y]@[x])
        &&& self.resource_spots@.len() == RESOURCE_SPOT_COUNT
        &&& (forall|k: int| 0 <= k < self.resource_spots@.len() ==>
                #[trigger] self.resource_spots@[k] == spec_spot(seed, self.width, self.height, k))
    }

    /// Deterministic world construction. A zero-sized grid is rejected with
    /// an explicit error; otherwise the result is exactly the layout the seed
    /// dictates, with the fog fully covered.
    pub fn generate(seed: u64, width: usize, height: usize) -> (r: Result<GridWorld, WorldError>)
        requires
            (width as int) * (height as int) <= MAX_CELLS as int,
        ensures
            r is Ok <==> (width >= 1 && height >= 1),
            r matches Ok(g) ==> {
                &&& g.wf()
                &&& g.width == width
                &&& g.height == height
                &&& g.is_generated(seed)
            },
            r matches Err(e) ==> e == WorldError::EmptyGrid,
    {
        if width == 0 || height == 0 {
            return Err(WorldError::EmptyGrid);
        }
        let mut rng = SeededRng::new(seed);
        proof {
            assert(0 * width == 0);
        }
        let mut obstacles: Vec<Vec<bool>> = Vec::new();
        for y in 0..height
            invariant
                rng.seed() == seed,
                rng.bounds() == Seq::<u64>::empty(),
                rng.raw_draws() == y * width,
                obstacles@.len() == y,
                forall|yy: int| 0 <= yy < y ==> (#[trigger] obstacles@[yy])@.len() == width,
                forall|yy: int, xx: int| 0 <= yy < y && 0 <= xx < width ==>
                    #[trigger] obstacles@[yy]@[xx] == obstacle_flag(seed, (yy * width + xx) as nat),
        {
            let mut row: Vec<bool> = Vec::new();
            for x in 0..width
                invariant
                    rng.seed() == seed,
                    rng.bounds() == Seq::<u64>::empty(),
                    rng.raw_draws() == y * width + x,
                    row@.len() == x,
                    forall|xx: int| 0 <= xx < x ==>
                        #[trigger] row@[xx] == obstacle_flag(seed, (y * width + xx) as nat),
            {
                let draw = rng.next_raw();
                row.push((draw >> 8) > OBSTACLE_CUTOFF);
            }
            obstacles.push(row);
            proof {
                assert((y + 1) * width == y * width + width) by (nonlinear_arith);
            }
        }
        let mut spots: Vec<(usize, usize)> = Vec::new();
        proof {
            assert(height * width == width * height) by (nonlinear_arith);
        }
        for k in 0..RESOURCE_SPOT_COUNT
            invariant
                rng.seed() == seed,
                rng.raw_draws() == (width * height) as nat,
                rng.bounds() == coord_bounds(width as u64, height as u64, (2 * k) as nat),
                spots@.len() == k,
                forall|i: int| 0 <= i < k ==>
                    #[trigger] spots@[i] == spec_spot(seed, width, height, i),
                forall|i: int| 0 <= i < k ==>
                    (#[trigger] spots@[i]).0 < width && spots@[i].1 < height,
        {
            let sx = rng.next_bounded(width as u64);
            let sy = rng.next_bounded(height as u64);
            spots.push((sx as usize, sy as usize));
            proof {
                let w = width as u64;
                let h = height as u64;
                assert((2 * k) as int % 2 == 0 && (2 * k + 1) as int % 2 == 1);
                assert(coord_bounds(w, h, (2 * k + 1) as nat)
                    == coord_bounds(w, h, (2 * k) as nat).push(w));
                assert(coord_bounds(w, h, (2 * k + 2) as nat)
                    == coord_bounds(w, h, (2 * k + 1) as nat).push(h));
                assert((2 * (k + 1)) as nat == (2 * k + 2) as nat);
            }
        }
        let mut fog: Vec<Vec<bool>> = Vec::new();
        for y in 0..height
            invariant
                fog@.len() == y,
                forall|yy: int| 0 <= yy < y ==> (#[trigger] fog@[yy])@.len() == width,
                forall|yy: int, xx: int| 0 <= yy < y && 0 <= xx < width ==>
                    #[trigger] fog@[yy]@[xx],
        {
            let mut row: Vec<bool> = Vec::new();
            for x in 0..width
                invariant
                    row@.len() == x,
                    forall|xx: int| 0 <= xx < x ==> #[trigger] row@[xx],
            {
                row.push(true);
            }
            fog.push(row);
        }
        Ok(GridWorld { width, height, obstacles, resource_spots: spots, fog })
    }

    /// False if the position is out of bounds or an obstacle.
    pub fn is_passable(&self, pos: (usize, usize)) -> (r: bool)
        requires
            self.wf(),
        ensures
            r == self.spec_passable(pos),
    {
        pos.0 < self.width && pos.1 < self.height && !self.obstacles[pos.1][pos.0]
    }

    /// Clears the fog over the 3x3 neighborhood centered on `pos`, clipped to
    /// the grid bounds. Fog cells are only ever cleared here, never re-covered,
    /// and nothing else of the world changes.
    pub fn reveal_around(&mut self, pos: (usize, usize))
        requires
            old(self).wf(),
            old(self).in_bounds(pos),
        ensures
            final(self).wf(),
            final(self).width == old(self).width,
            final(self).height == old(self).height,
            final(self).obstacles@ == old(self).obstacles@,
            final(self).resource_spots@ == old(self).resource_spots@,
            forall|x: int, y: int| 0 <= x < old(self).width && 0 <= y < old(self).height ==>
                #[trigger] final(self).fog_at(x, y)
                    == (old(self).fog_at(x, y)
                        && !(pos.0 - 1 <= x <= pos.0 + 1 && pos.1 - 1 <= y <= pos.1 + 1)),
    {
        let x_lo = if pos.0 >= 1 { pos.0 - 1 } else { 0 };
        let y_lo = if pos.1 >= 1 { pos.1 - 1 } else { 0 };
        let x_hi = if pos.0 + 1 < self.width { pos.0 + 1 } else { self.width - 1 };
        let y_hi = if pos.1 + 1 < self.height { pos.1 + 1 } else { self.height - 1 };
        let mut y = y_lo;
        while y <= y_hi
            invariant
                y_lo <= y <= y_hi + 1,
                self.width == old(self).width,
                self.height == old(self).height,
                self.obstacles@ == old(self).obstacles@,
                self.resource_spots@ == old(self).resource_spots@,
                self.fog@.len() == self.height,
                forall|yy: int| 0 <= yy < self.height ==> (#[trigger] self.fog@[yy])@.len() == self.width,
                forall|xx: int, yy: int| 0 <= xx < self.width && 0 <= yy < self.height ==>
                    #[trigger] self.fog_at(xx, yy)
                        == (old(self).fog_at(xx, yy)
                            && !(x_lo <= xx <= x_hi && y_lo <= yy < y)),
            decreases y_hi + 1 - y,
        {
            let mut x = x_lo;
            while x <= x_hi
                invariant
                    x_lo <= x <= x_hi + 1,
                    y <= y_hi,
                    self.width == old(self).width,
                    self.height == old(self).height,
                    self.obstacles@ == old(self).obstacles@,
                    self.resource_spots@ == old(self).resource_spots@,
                    self.fog@.len() == self.height,
                    forall|yy: int| 0 <= yy < self.height ==> (#[trigger] self.fog@[yy])@.len() == self.width,
                    forall|xx: int, yy: int| 0 <= xx < self.width && 0 <= yy < self.height ==>
                        #[trigger] self.fog_at(xx, yy)
                            == (old(self).fog_at(xx, yy)
                                && !((x_lo <= xx <= x_hi && y_lo <= yy < y)
                                    || (yy == y && x_lo <= xx < x))),
                decreases x_hi + 1 - x,
            {
                let ghost pre = *self;
                self.fog[y][x] = false;
                proof {
                    assert(self.fog@[y as int]@ == pre.fog@[y as int]@.update(x as int, false));
                    assert(forall|yy: int| 0 <= yy < pre.fog@.len() && yy != y
                        ==> #[trigger] self.fog@[yy] == pre.fog@[yy]);
                    assert forall|xx: int, yy: int| 0 <= xx < self.width && 0 <= yy < self.height
                        implies #[trigger] self.fog_at(xx, yy)
                            == (old(self).fog_at(xx, yy)
                                && !((x_lo <= xx <= x_hi && y_lo <= yy < y)
                                    || (yy == y && x_lo <= xx < x + 1))) by {
                        assert(pre.fog_at(xx, yy)
                            == (old(self).fog_at(xx, yy)
                                && !((x_lo <= xx <= x_hi && y_lo <= yy < y)
                                    || (yy == y && x_lo <= xx < x))));
                        if yy == y as int {
                            if xx == x as int {
                                assert(self.fog_at(xx, yy) == false);
                            } else {
                                assert(self.fog@[yy]@[xx] == pre.fog@[yy]@[xx]);
                            }
                        } else {
                            assert(self.fog@[yy] == pre.fog@[yy]);
                        }
                    }
                }
                x = x + 1;
            }
            y = y + 1;
        }
    }

    /// `100 * explored / total`, rounded down. It is 100 exactly when every
    /// cell of the grid has been explored.
    pub fn explored_percentage(&self) -> (r: u64)
        requires
            self.wf(),
        ensures
            r == self.spec_explored_percentage(),
            r <= 100,
            (r == 100) <==> self.explored_cells() == self.total_cells(),
    {
        let mut count: u64 = 0;
        let mut y: usize = 0;
        while y < self.height
            invariant
                y <= self.height,
                count == explored_upto(self.fog@, y as int, self.width as int),
                count <= y * self.width,
            decreases self.height - y,
        {
            let mut x: usize = 0;
            while x < self.width
                invariant
                    x <= self.width,
                    y < self.height,
                    count == explored_upto(self.fog@, y as int, self.width as int)
                        + row_explored(self.fog@[y as int]@, x as int),
                    count <= y * self.width + x,
                decreases self.width - x,
            {
                proof {
                    assert(y * self.width + x + 1 <= self.height * self.width) by (nonlinear_arith)
                        requires y < self.height, x < self.width;
                    assert(self.height * self.width == self.width * self.height) by (nonlinear_arith);
                }
                if !self.fog[y][x] {
                    count = count + 1;
                }
                x = x + 1;
            }
            proof {
                assert((y + 1) * self.width == y * self.width + self.width) by (nonlinear_arith);
            }
            y = y + 1;
        }
        proof {
            assert(self.height * self.width == self.width * self.height) by (nonlinear_arith);
            assert(self.width * self.height >= 1) by (nonlinear_arith)
                requires self.width >= 1, self.height >= 1;
            lemma_explored_upto_bounds(self.fog@, self.height as int, self.width as int);
            assert(self.height as int * self.width as int == (self.height as u64) as int * (self.width as u64) as int);
        }
        let total: u64 = (self.width as u64) * (self.height as u64);
        let pct = 100 * count / total;
        proof {
            lemma_percentage_bounds(count as int, total as int);
        }
        pct
    }

    /// Removes every resource spot equal to `pos` (the list is treated as a
    /// multiset; duplicates at that coordinate all leave together).
    pub fn remove_resource_at(&mut self, pos: (usize, usize))
        requires
            old(self).wf(),
        ensures
            final(self).wf(),
            final(self).width == old(self).width,
            final(self).height == old(self).height,
            final(self).obstacles@ == old(self).obstacles@,
            final(self).fog@ == old(self).fog@,
            final(self).resource_spots@ == retain_ne(old(self).resource_spots@, pos),
            !final(self).resource_spots@.contains(pos),
            forall|q: (usize, usize)| q != pos && old(self).resource_spots@.contains(q)
                ==> final(self).resource_spots@.contains(q),
            forall|k: int| 0 <= k < final(self).resource_spots@.len()
                ==> old(self).resource_spots@.contains(#[trigger] final(self).resource_spots@[k]),
    {
        let mut kept: Vec<(usize, usize)> = Vec::new();
        let n = self.resource_spots.len();
        let mut i: usize = 0;
        while i < n
            invariant
                i <= n,
                n == self.resource_spots@.len(),
                kept@ == retain_ne(self.resource_spots@.subrange(0, i as int), pos),
            decreases n - i,
        {
            let p = self.resource_spots[i];
            if !(p.0 == pos.0 && p.1 == pos.1) {
                kept.push(p);
            }
            proof {
                let s = self.resource_spots@;
                assert(s.subrange(0, i + 1).drop_last() =~= s.subrange(0, i as int));
                assert(s.subrange(0, i + 1).last() == s[i as int]);
            }
            i = i + 1;
        }
        proof {
            let s = self.resource_spots@;
            assert(s.subrange(0, n as int) =~= s);
            lemma_retain_ne(s, pos);
            assert forall|k: int| 0 <= k < kept@.len()
                implies (#[trigger] kept@[k]).0 < self.width && kept@[k].1 < self.height by {
                let q = kept@[k];
                let j = choose|j: int| 0 <= j < s.len() && s[j] == q;
                assert(s[j].0 < self.width && s[j].1 < self.height);
            }
        }
        self.resource_spots = kept;
    }

    /// Pops one resource spot from the end of the list, if any remain.
    pub fn take_any_resource(&mut self) -> (r: Option<(usize, usize)>)
        requires
            old(self).wf(),
        ensures
            final(self).wf(),
            final(self).width == old(self).width,
            final(self).height == old(self).height,
            final(self).obstacles@ == old(self).obstacles@,
            final(self).fog@ == old(self).fog@,
            old(self).resource_spots@.len() == 0 ==> r is None
                && final(self).resource_spots@ == old(self).resource_spots@,
            old(self).resource_spots@.len() > 0 ==> r == Some(old(self).resource_spots@.last())
                && final(self).resource_spots@ == old(self).resource_spots@.drop_last(),
    {
        self.resource_spots.pop()
    }
}

/// The sub-sequence of `s` with every occurrence of `p` removed, order kept.
pub open spec fn retain_ne(s: Seq<(usize, usize)>, p: (usize, usize)) -> Seq<(usize, usize)>
    decreases s.len(),
{
    if s.len() == 0 {
        Seq::empty()
    } else if s.last() == p {
        retain_ne(s.drop_last(), p)
    } else {
        retain_ne(s.drop_last(), p).push(s.last())
    }
}

/// What removal keeps: no occurrence of `p` survives, everything else does,
/// and nothing new appears.
pub proof fn lemma_retain_ne(s: Seq<(usize, usize)>, p: (usize, usize))
    ensures
        !retain_ne(s, p).contains(p),
        retain_ne(s, p).len() <= s.len(),
        forall|k: int| 0 <= k < retain_ne(s, p).len()
            ==> #[trigger] retain_ne(s, p)[k] != p && s.contains(retain_ne(s, p)[k]),
        forall|q: (usize, usize)| q != p && s.contains(q) ==> retain_ne(s, p).contains(q),
    decreases s.len(),
{
    if s.len() == 0 {
    } else {
        lemma_retain_ne(s.drop_last(), p);
        let rd = retain_ne(s.drop_last(), p);
        let r = retain_ne(s, p);
        assert forall|k: int| 0 <= k < r.len()
            implies #[trigger] r[k] != p && s.contains(r[k]) by {
            if k < rd.len() {
                assert(r[k] == rd[k]);
                let e = rd[k];
                let i = choose|i: int| 0 <= i < s.drop_last().len() && s.drop_last()[i] == e;
                assert(s[i] == e);
            } else {
                assert(r[k] == s.last());
                assert(s[s.len() - 1] == s.last());
            }
        }
        assert forall|q: (usize, usize)| q != p && s.contains(q)
            implies r.contains(q) by {
            let i = choose|i: int| 0 <= i < s.len() && s[i] == q;
            if i < s.len() - 1 {
                assert(s.drop_last()[i] == q);
                assert(s.drop_last().contains(q));
                let j = choose|j: int| 0 <= j < rd.len() && rd[j] == q;
                assert(r[j] == q);
            } else {
                assert(s.last() == q);
                assert(r[r.len() - 1] == q);
            }
        }
    }
}

/// Order-preserving containment: `a` can be read off `b` from left to right,
/// matched greedily from the end.
pub open spec fn is_subsequence(a: Seq<(usize, usize)>, b: Seq<(usize, usize)>) -> bool
    decreases b.len(),
{
    if a.len() == 0 {
        true
    } else if b.len() == 0 {
        false
    } else if a.last() == b.last() {
        is_subsequence(a.drop_last(), b.drop_last())
    } else {
        is_subsequence(a, b.drop_last())
    }
}

pub proof fn lemma_subsequence_refl(a: Seq<(usize, usize)>)
    ensures
        is_subsequence(a, a),
    decreases a.len(),
{
    if a.len() > 0 {
        lemma_subsequence_refl(a.drop_last());
    }
}

/// Dropping an element of the smaller sequence keeps it a subsequence.
proof fn lemma_subsequence_weaken(a: Seq<(usize, usize)>, b: Seq<(usize, usize)>)
    requires
        is_subsequence(a, b),
        a.len() > 0,
    ensures
        is_subsequence(a.drop_last(), b),
    decreases b.len(),
{
    let a1 = a.drop_last();
    if a1.len() == 0 {
    } else {
        if a.last() != b.last() {
            lemma_subsequence_weaken(a, b.drop_last());
        }
        // either way, is_subsequence(a1, b.drop_last()) holds here
        if a1.last() == b.last() {
            lemma_subsequence_weaken(a1, b.drop_last());
        }
    }
}

pub proof fn lemma_subsequence_trans(
    a: Seq<(usize, usize)>,
    b: Seq<(usize, usize)>,
    c: Seq<(usize, usize)>,
)
    requires
        is_subsequence(a, b),
        is_subsequence(b, c),
    ensures
        is_subsequence(a, c),
    decreases c.len(),
{
    if a.len() == 0 {
    } else if b.last() == c.last() {
        if a.last() == b.last() {
            lemma_subsequence_trans(a.drop_last(), b.drop_last(), c.drop_last());
        } else {
            lemma_subsequence_trans(a, b.drop_last(), c.drop_last());
            if a.last() == c.last() {
                lemma_subsequence_weaken(a, c.drop_last());
            }
        }
    } else {
        lemma_subsequence_trans(a, b, c.drop_last());
        if a.last() == c.last() {
            lemma_subsequence_weaken(a, c.drop_last());
        }
    }
}

/// Removal keeps the surviving spots in their original relative order.
pub proof fn lemma_retain_ne_subsequence(s: Seq<(usize, usize)>, p: (usize, usize))
    ensures
        is_subsequence(retain_ne(s, p), s),
    decreases s.len(),
{
    if s.len() > 0 {
        lemma_retain_ne_subsequence(s.drop_last(), p);
        let r = retain_ne(s, p);
        if s.last() == p {
            if r.len() > 0 {
                lemma_retain_ne(s.drop_last(), p);
                assert(r[r.len() - 1] != p);
                assert(r.last() != s.last());
            }
        } else {
            assert(r.last() == s.last());
            assert(r.drop_last() =~= retain_ne(s.drop_last(), p));
        }
    }
}

pub proof fn lemma_drop_last_subsequence(s: Seq<(usize, usize)>)
    requires
        s.len() > 0,
    ensures
        is_subsequence(s.drop_last(), s),
    decreases s.len(),
{
    let a = s.drop_last();
    if a.len() == 0 {
    } else if a.last() == s.last() {
        lemma_drop_last_subsequence(a);
    } else {
        lemma_subsequence_refl(a);
    }
}

/// Every in-bounds cell of the 3x3 neighborhood of `p` is clear of fog.
pub open spec fn revealed_around(g: GridWorld, p: (usize, usize)) -> bool {
    forall|x: int, y: int|
        0 <= x < g.width && 0 <= y < g.height
        && p.0 - 1 <= x <= p.0 + 1 && p.1 - 1 <= y <= p.1 + 1
        ==> (#[trigger] g.fog_at(x, y)) == false
}

proof fn lemma_row_explored_bounds(row: Seq<bool>, n: int)
    requires
        n >= 0,
    ensures
        0 <= row_explored(row, n) <= n,
    decreases n,
{
    if n > 0 {
        lemma_row_explored_bounds(row, n - 1);
    }
}

proof fn lemma_explored_upto_bounds(fog: Seq<Vec<bool>>, rows: int, width: int)
    requires
        rows >= 0,
        width >= 0,
    ensures
        0 <= explored_upto(fog, rows, width) <= rows * width,
    decreases rows,
{
    if rows > 0 {
        lemma_explored_upto_bounds(fog, rows - 1, width);
        lemma_row_explored_bounds(fog[rows - 1]@, width);
        assert((rows - 1) * width + width == rows * width) by (nonlinear_arith);
    } else {
        assert(rows * width == 0) by (nonlinear_arith)
            requires rows == 0;
    }
}

proof fn lemma_row_explored_monotone(r1: Seq<bool>, r2: Seq<bool>, n: int)
    requires
        forall|i: int| 0 <= i < n ==> ((#[trigger] r1[i]) == false ==> r2[i] == false),
    ensures
        row_explored(r1, n) <= row_explored(r2, n),
    decreases n,
{
    if n > 0 {
        lemma_row_explored_monotone(r1, r2, n - 1);
    }
}

proof fn lemma_explored_upto_monotone(f1: Seq<Vec<bool>>, f2: Seq<Vec<bool>>, rows: int, width: int)
    requires
        forall|y: int, x: int| 0 <= y < rows && 0 <= x < width
            ==> ((#[trigger] f1[y]@[x]) == false ==> f2[y]@[x] == false),
    ensures
        explored_upto(f1, rows, width) <= explored_upto(f2, rows, width),
    decreases rows,
{
    if rows > 0 {
        lemma_explored_upto_monotone(f1, f2, rows - 1, width);
        lemma_row_explored_monotone(f1[rows - 1]@, f2[rows - 1]@, width);
    }
}

/// `100 * e / t` lies in [0, 100] for 0 <= e <= t, and reaches 100 exactly
/// when e == t.
proof fn lemma_percentage_bounds(e: int, t: int)
    requires
        0 <= e <= t,
        1 <= t,
    ensures
        0 <= 100 * e / t <= 100,
        (100 * e / t == 100) <==> (e == t),
{
    assert(0 <= 100 * e / t <= 100 && ((100 * e / t == 100) <==> (e == t))) by (nonlinear_arith)
        requires 0 <= e <= t, 1 <= t;
}

/// Determinism of generation: two worlds of the same dimensions, both
/// generated from the same seed, have identical obstacle matrices, identical
/// resource-spot sequences, and identical (fully covered) fog.
pub proof fn lemma_generate_deterministic(g1: GridWorld, g2: GridWorld, seed: u64)
    requires
        g1.wf(),
        g2.wf(),
        g1.is_generated(seed),
        g2.is_generated(seed),
        g1.width == g2.width,
        g1.height == g2.height,
    ensures
        forall|y: int| 0 <= y < g1.height ==> (#[trigger] g1.obstacles@[y])@ == g2.obstacles@[y]@,
        g1.resource_spots@ == g2.resource_spots@,
        forall|y: int| 0 <= y < g1.height ==> (#[trigger] g1.fog@[y])@ == g2.fog@[y]@,
{
    assert forall|y: int| 0 <= y < g1.height
        implies (#[trigger] g1.obstacles@[y])@ == g2.obstacles@[y]@ by {
        assert(g1.obstacles@[y]@ =~= g2.obstacles@[y]@);
    }
    assert(g1.resource_spots@ =~= g2.resource_spots@);
    assert forall|y: int| 0 <= y < g1.height
        implies (#[trigger] g1.fog@[y])@ == g2.fog@[y]@ by {
        assert(g1.fog@[y]@ =~= g2.fog@[y]@);
    }
}

/// Coverage is monotone under fog dissipation: when every cell explored in
/// `g1` is still explored in `g2`, the explored percentage cannot decrease,
/// and it always lies in [0, 100].
pub proof fn lemma_explored_percentage_monotone(g1: GridWorld, g2: GridWorld)
    requires
        g1.wf(),
        g2.wf(),
        g1.width == g2.width,
        g1.height == g2.height,
        forall|x: int, y: int| 0 <= x < g1.width && 0 <= y < g1.height
            ==> ((#[trigger] g1.fog_at(x, y)) == false ==> g2.fog_at(x, y) == false),
    ensures
        0 <= g1.spec_explored_percentage(),
        g1.spec_explored_percentage() <= g2.spec_explored_percentage(),
        g2.spec_explored_percentage() <= 100,
{
    let w = g1.width as int;
    let h = g1.height as int;
    assert forall|y: int, x: int| 0 <= y < h && 0 <= x < w
        implies ((#[trigger] g1.fog@[y]@[x]) == false ==> g2.fog@[y]@[x] == false) by {
        assert(g1.fog_at(x, y) == g1.fog@[y]@[x]);
        assert(g2.fog_at(x, y) == g2.fog@[y]@[x]);
    }
    lemma_explored_upto_monotone(g1.fog@, g2.fog@, h, w);
    lemma_explored_upto_bounds(g1.fog@, h, w);
    lemma_explored_upto_bounds(g2.fog@, h, w);
    assert(h * w == w * h) by (nonlinear_arith);
    assert(w * h >= 1) by (nonlinear_arith)
        requires w >= 1, h >= 1;
    lemma_percentage_bounds(g1.explored_cells(), g1.total_cells());
    lemma_percentage_bounds(g2.explored_cells(), g2.total_cells());
    lemma_div_is_ordered(
        100 * g1.explored_cells(),
        100 * g2.explored_cells(),
        g1.total_cells(),
    );
}

} // verus!
