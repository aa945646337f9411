//! The shared environment: a rectangular grid of cells, the world bounds,
//! and the landmark registries (forest and lake centers) used for
//! distance-based reward shaping.

use vstd::prelude::*;

use crate::types::{manhattan, Position};

verus! {

/// The largest grid dimension the engine accepts on either axis. Keeping the
/// grid this small lets every state key and coordinate computation stay well
/// inside the fixed-width integer types.
pub const MAX_DIM: usize = 1024;

/// One grid cell. The payload is the cell's depletion/regrowth quality in
/// thousandths: `1000` is pristine, `0` fully depleted.
#[derive(Clone, Copy, PartialEq, Eq, Structural, Debug)]
pub enum Element {
    Empty,
    Tree(u32),
    Water(u32),
    Grass(u32),
    House(u32),
}

impl Element {
    /// The quality scalar stays within `[0, 1000]` (a unit interval in
    /// thousandths).
    pub open spec fn wf(self) -> bool {
        match self {
            Element::Empty => true,
            Element::Tree(q) => q <= 1000,
            Element::Water(q) => q <= 1000,
            Element::Grass(q) => q <= 1000,
            Element::House(q) => q <= 1000,
        }
    }

    pub open spec fn is_water(self) -> bool {
        self is Water
    }

    pub open spec fn is_tree(self) -> bool {
        self is Tree
    }
}

/// The world grid shared by every agent: cells, bounds, and the landmark
/// registries. Mutated only while the world is built, read-only during
/// stepping and training.
pub struct Environment {
    pub cells: Vec<Vec<Element>>,
    /// `(height, width)`: the number of rows and columns of `cells`.
    pub world_limits: (usize, usize),
    /// Representative center points of placed forest regions.
    pub forests: Vec<Position>,
    /// Representative center points of placed lake regions.
    pub lakes: Vec<Position>,
}

/// Whether `p` lies inside the grid bounds of `env`.
pub open spec fn in_grid(env: Environment, p: Position) -> bool {
    &&& 0 <= p.x < env.height()
    &&& 0 <= p.y < env.width()
}

/// `v` clamped into `[0, hi]`.
pub open spec fn clamp_to(v: int, hi: int) -> int {
    if v < 0 {
        0
    } else if v > hi {
        hi
    } else {
        v
    }
}

/// The midpoint of the rectangle `[clamp(start), clamp(stop))` once clamped
/// into a `height x width` grid: the recorded landmark of a placed region.
pub open spec fn region_mid_spec(start: Position, stop: Position, height: int, width: int) -> Position {
    Position {
        x: ((clamp_to(start.x as int, height) + clamp_to(stop.x as int, height) - 1) / 2) as i32,
        y: ((clamp_to(start.y as int, width) + clamp_to(stop.y as int, width) - 1) / 2) as i32,
    }
}

/// The landmark of `s` closest (in Manhattan distance) to `p`; on a tie, the
/// earliest such landmark in `s`.
pub open spec fn closest_of(s: Seq<Position>, p: Position) -> Position
    recommends
        s.len() > 0,
    decreases s.len(),
{
    if s.len() <= 1 {
        s[0]
    } else {
        let best = closest_of(s.drop_last(), p);
        if manhattan(s.last(), p) < manhattan(best, p) {
            s.last()
        } else {
            best
        }
    }
}

/// The closest landmark is a member of the registry and minimizes the
/// Manhattan distance over it.
pub proof fn lemma_closest_of(s: Seq<Position>, p: Position)
    requires
        s.len() > 0,
    ensures
        exists|i: int| 0 <= i < s.len() && s[i] == closest_of(s, p),
        forall|i: int|
            0 <= i < s.len() ==> manhattan(closest_of(s, p), p) <= manhattan(#[trigger] s[i], p),
    decreases s.len(),
{
    if s.len() > 1 {
        lemma_closest_of(s.drop_last(), p);
        assert forall|i: int| 0 <= i < s.len() implies manhattan(closest_of(s, p), p) <= manhattan(
            #[trigger] s[i],
            p,
        ) by {
            if i < s.len() - 1 {
                assert(s.drop_last()[i] == s[i]);
            }
        }
        if manhattan(s.last(), p) < manhattan(closest_of(s.drop_last(), p), p) {
            assert(s[s.len() - 1] == closest_of(s, p));
        } else {
            let i = choose|i: int|
                0 <= i < s.drop_last().len() && s.drop_last()[i] == closest_of(s.drop_last(), p);
            assert(s[i] == closest_of(s, p));
        }
    } else {
        assert(s[0] == closest_of(s, p));
    }
}

impl Environment {
    pub open spec fn height(self) -> int {
        self.world_limits.0 as int
    }

    pub open spec fn width(self) -> int {
        self.world_limits.1 as int
    }

    /// The cell at row `x`, column `y`.
    pub open spec fn cell(self, x: int, y: int) -> Element {
        self.cells@[x]@[y]
    }

    /// Structural well-formedness: positive bounded dimensions, a rectangular
    /// grid matching them, quality scalars in range, and every landmark
    /// inside the bounds.
    pub open spec fn wf(self) -> bool {
        &&& 1 <= self.height() <= MAX_DIM as int
        &&& 1 <= self.width() <= MAX_DIM as int
        &&& self.cells@.len() == self.height()
        &&& forall|i: int| 0 <= i < self.height() ==> (#[trigger] self.cells@[i])@.len() == self.width()
        &&& forall|i: int, j: int|
            0 <= i < self.height() && 0 <= j < self.width() ==> (#[trigger] self.cell(i, j)).wf()
        &&& forall|i: int| 0 <= i < self.forests@.len() ==> in_grid(self, #[trigger] self.forests@[i])
        &&& forall|i: int| 0 <= i < self.lakes@.len() ==> in_grid(self, #[trigger] self.lakes@[i])
    }

    /// Both landmark registries are populated; querying the closest lake or
    /// forest is meaningful only then.
    pub open spec fn has_landmarks(self) -> bool {
        &&& self.forests@.len() > 0
        &&& self.lakes@.len() > 0
    }

    pub fn get_element(&self, x: usize, y: usize) -> (e: Element)
        requires
            self.wf(),
            x < self.height(),
            y < self.width(),
        ensures
            e == self.cell(x as int, y as int),
    {
        self.cells[x][y]
    }

    /// The registry landmark closest to `p`, scanning forward and keeping the
    /// first minimum.
    fn closest_in(registry: &Vec<Position>, p: &Position) -> (r: Position)
        requires
            registry@.len() > 0,
            forall|i: int|
                0 <= i < registry@.len() ==> -2048 < (#[trigger] registry@[i]).x - p.x < 2048
                    && -2048 < registry@[i].y - p.y < 2048,
        ensures
            r == closest_of(registry@, *p),
    {
        let mut best = registry[0];
        let mut best_dist = best.manhattan_dist(p);
        let mut i: usize = 1;
        while i < registry.len()
            invariant
                1 <= i <= registry@.len(),
                forall|k: int|
                    0 <= k < registry@.len() ==> -2048 < (#[trigger] registry@[k]).x - p.x < 2048
                        && -2048 < registry@[k].y - p.y < 2048,
                best == closest_of(registry@.take(i as int), *p),
                best_dist == manhattan(best, *p),
            decreases registry@.len() - i,
        {
            let cand = registry[i];
            let d = cand.manhattan_dist(p);
            assert(registry@.take(i + 1).drop_last() =~= registry@.take(i as int));
            if d < best_dist {
                best = cand;
                best_dist = d;
            }
            i = i + 1;
        }
        assert(registry@.take(registry@.len() as int) =~= registry@);
        best
    }

    /// The lake landmark closest to `p`.
    pub fn closest_lake(&self, p: &Position) -> (r: Position)
        requires
            self.wf(),
            self.lakes@.len() > 0,
            in_grid(*self, *p),
        ensures
            r == closest_of(self.lakes@, *p),
            in_grid(*self, r),
    {
        proof {
            lemma_closest_of(self.lakes@, *p);
        }
        Environment::closest_in(&self.lakes, p)
    }

    /// The forest landmark closest to `p`.
    pub fn closest_forest(&self, p: &Position) -> (r: Position)
        requires
            self.wf(),
            self.forests@.len() > 0,
            in_grid(*self, *p),
        ensures
            r == closest_of(self.forests@, *p),
            in_grid(*self, r),
    {
        proof {
            lemma_closest_of(self.forests@, *p);
        }
        Environment::closest_in(&self.forests, p)
    }

    /// The minimal Manhattan distance from `p` to any lake landmark.
    pub fn distance_to_lake(&self, p: &Position) -> (d: i32)
        requires
            self.wf(),
            self.lakes@.len() > 0,
            in_grid(*self, *p),
        ensures
            d == manhattan(closest_of(self.lakes@, *p), *p),
            forall|i: int| 0 <= i < self.lakes@.len() ==> d <= manhattan(#[trigger] self.lakes@[i], *p),
    {
        proof {
            lemma_closest_of(self.lakes@, *p);
        }
        let c = self.closest_lake(p);
        c.manhattan_dist(p)
    }

    /// The minimal Manhattan distance from `p` to any forest landmark.
    pub fn distance_to_forest(&self, p: &Position) -> (d: i32)
        requires
            self.wf(),
            self.forests@.len() > 0,
            in_grid(*self, *p),
        ensures
            d == manhattan(closest_of(self.forests@, *p), *p),
            forall|i: int|
                0 <= i < self.forests@.len() ==> d <= manhattan(#[trigger] self.forests@[i], *p),
    {
        proof {
            lemma_closest_of(self.forests@, *p);
        }
        let c = self.closest_forest(p);
        c.manhattan_dist(p)
    }

    /// `v` clamped into `[0, hi]`, on machine integers.
    fn clamp_coord(v: i32, hi: usize) -> (r: usize)
        requires
            hi <= MAX_DIM,
        ensures
            r == clamp_to(v as int, hi as int),
    {
        if v < 0 {
            0
        } else if v as usize > hi {
            hi
        } else {
            v as usize
        }
    }

    /// Whether `(x, y)` lies in the rectangle `[x0, x1) x [y0, y1)` given by
    /// clamping `start` (inclusive) and `stop` (exclusive) to the grid.
    pub open spec fn in_region(self, start: Position, stop: Position, x: int, y: int) -> bool {
        &&& clamp_to(start.x as int, self.height()) <= x < clamp_to(stop.x as int, self.height())
        &&& clamp_to(start.y as int, self.width()) <= y < clamp_to(stop.y as int, self.width())
    }

    /// Fills the axis-aligned rectangle `[clamp(start), clamp(stop))` with
    /// `kind`; every cell outside it keeps its prior value. Landmark
    /// registries are untouched.
    pub fn place_region(&mut self, start: Position, stop: Position, kind: Element)
        requires
            old(self).wf(),
            kind.wf(),
        ensures
            final(self).wf(),
            final(self).world_limits == old(self).world_limits,
            final(self).forests == old(self).forests,
            final(self).lakes == old(self).lakes,
            forall|x: int, y: int|
                0 <= x < old(self).height() && 0 <= y < old(self).width()
                    ==> #[trigger] final(self).cell(x, y) == (if old(self).in_region(
                    start,
                    stop,
                    x,
                    y,
                ) {
                    kind
                } else {
                    old(self).cell(x, y)
                }),
    {
        let x0 = Environment::clamp_coord(start.x, self.world_limits.0);
        let x1 = Environment::clamp_coord(stop.x, self.world_limits.0);
        let y0 = Environment::clamp_coord(start.y, self.world_limits.1);
        let y1 = Environment::clamp_coord(stop.y, self.world_limits.1);
        let mut x = x0;
        while x < x1
            invariant
                old(self).wf(),
                kind.wf(),
                x0 <= x,
                x <= x1 || x == x0,
                x0 == clamp_to(start.x as int, old(self).height()),
                x1 == clamp_to(stop.x as int, old(self).height()),
                y0 == clamp_to(start.y as int, old(self).width()),
                y1 == clamp_to(stop.y as int, old(self).width()),
                x1 <= old(self).height(),
                y1 <= old(self).width(),
                self.world_limits == old(self).world_limits,
                self.forests == old(self).forests,
                self.lakes == old(self).lakes,
                self.cells@.len() == old(self).cells@.len(),
                forall|i: int|
                    0 <= i < self.height() ==> (#[trigger] self.cells@[i])@.len() == self.width(),
                forall|i: int, j: int|
                    #![trigger self.cells@[i]@[j]]
                    0 <= i < self.height() && 0 <= j < self.width() ==> self.cells@[i]@[j] == (
                    if x0 <= i < x && y0 <= j < y1 {
                        kind
                    } else {
                        old(self).cells@[i]@[j]
                    }),
            decreases x1 - x,
        {
            let mut y = y0;
            while y < y1
                invariant
                    old(self).wf(),
                    kind.wf(),
                    x0 <= x < x1,
                    y0 <= y,
                    y <= y1 || y == y0,
                    x1 <= old(self).height(),
                    y1 <= old(self).width(),
                    self.world_limits == old(self).world_limits,
                    self.forests == old(self).forests,
                    self.lakes == old(self).lakes,
                    self.cells@.len() == old(self).cells@.len(),
                    forall|i: int|
                        0 <= i < self.height() ==> (#[trigger] self.cells@[i])@.len()
                            == self.width(),
                    forall|i: int, j: int|
                        #![trigger self.cells@[i]@[j]]
                        0 <= i < self.height() && 0 <= j < self.width() ==> self.cells@[i]@[j] == (
                        if (x0 <= i < x && y0 <= j < y1) || (i == x && y0 <= j < y) {
                            kind
                        } else {
                            old(self).cells@[i]@[j]
                        }),
                decreases y1 - y,
            {
                self.cells[x][y] = kind;
                y = y + 1;
            }
            x = x + 1;
        }
        proof {
            assert forall|i: int, j: int|
                0 <= i < self.height() && 0 <= j < self.width() implies (#[trigger] self.cell(
                i,
                j,
            )).wf() by {
                assert(old(self).cell(i, j).wf());
            }
        }
    }

    /// Fills a rectangle with fresh trees and records the region's midpoint
    /// as a forest landmark.
    pub fn add_forest(&mut self, start: Position, stop: Position)
        requires
            old(self).wf(),
            clamp_to(start.x as int, old(self).height()) < clamp_to(
                stop.x as int,
                old(self).height(),
            ),
            clamp_to(start.y as int, old(self).width()) < clamp_to(
                stop.y as int,
                old(self).width(),
            ),
        ensures
            final(self).wf(),
            final(self).world_limits == old(self).world_limits,
            final(self).lakes == old(self).lakes,
            final(self).forests@.len() == old(self).forests@.len() + 1,
            forall|i: int|
                0 <= i < old(self).forests@.len() ==> #[trigger] final(self).forests@[i] == old(
                    self,
                ).forests@[i],
            final(self).forests@.last() == region_mid_spec(
                start,
                stop,
                old(self).height(),
                old(self).width(),
            ),
            old(self).in_region(
                start,
                stop,
                final(self).forests@.last().x as int,
                final(self).forests@.last().y as int,
            ),
            forall|x: int, y: int|
                0 <= x < old(self).height() && 0 <= y < old(self).width()
                    ==> #[trigger] final(self).cell(x, y) == (if old(self).in_region(
                    start,
                    stop,
                    x,
                    y,
                ) {
                    Element::Tree(1000)
                } else {
                    old(self).cell(x, y)
                }),
    {
        self.place_region(start, stop, Element::Tree(1000));
        let mid = Environment::region_mid(
            start,
            stop,
            self.world_limits.0,
            self.world_limits.1,
        );
        let ghost placed = *self;
        self.forests.push(mid);
        proof {
            assert(self.cells == placed.cells);
            assert forall|x: int, y: int|
                0 <= x < old(self).height() && 0 <= y < old(self).width() implies #[trigger] self.cell(
                x,
                y,
            ) == (if old(self).in_region(start, stop, x, y) {
                Element::Tree(1000)
            } else {
                old(self).cell(x, y)
            }) by {
                assert(self.cell(x, y) == placed.cell(x, y));
            }
            assert forall|i: int, j: int|
                0 <= i < self.height() && 0 <= j < self.width() implies (#[trigger] self.cell(
                i,
                j,
            )).wf() by {
                assert(placed.cell(i, j).wf());
            }
            assert forall|i: int| 0 <= i < self.forests@.len() implies in_grid(
                *self,
                #[trigger] self.forests@[i],
            ) by {
                if i < placed.forests@.len() {
                    assert(in_grid(placed, placed.forests@[i]));
                }
            }
        }
    }

    /// Fills a rectangle with fresh water and records the region's midpoint
    /// as a lake landmark.
    pub fn add_lake(&mut self, start: Position, stop: Position)
        requires
            old(self).wf(),
            clamp_to(start.x as int, old(self).height()) < clamp_to(
                stop.x as int,
                old(self).height(),
            ),
            clamp_to(start.y as int, old(self).width()) < clamp_to(
                stop.y as int,
                old(self).width(),
            ),
        ensures
            final(self).wf(),
            final(self).world_limits == old(self).world_limits,
            final(self).forests == old(self).forests,
            final(self).lakes@.len() == old(self).lakes@.len() + 1,
            forall|i: int|
                0 <= i < old(self).lakes@.len() ==> #[trigger] final(self).lakes@[i] == old(
                    self,
                ).lakes@[i],
            final(self).lakes@.last() == region_mid_spec(
                start,
                stop,
                old(self).height(),
                old(self).width(),
            ),
            old(self).in_region(
                start,
                stop,
                final(self).lakes@.last().x as int,
                final(self).lakes@.last().y as int,
            ),
            forall|x: int, y: int|
                0 <= x < old(self).height() && 0 <= y < old(self).width()
                    ==> #[trigger] final(self).cell(x, y) == (if old(self).in_region(
                    start,
                    stop,
                    x,
                    y,
                ) {
                    Element::Water(1000)
                } else {
                    old(self).cell(x, y)
                }),
    {
        self.place_region(start, stop, Element::Water(1000));
        let mid = Environment::region_mid(
            start,
            stop,
            self.world_limits.0,
            self.world_limits.1,
        );
        let ghost placed = *self;
        self.lakes.push(mid);
        proof {
            assert(self.cells == placed.cells);
            assert forall|x: int, y: int|
                0 <= x < old(self).height() && 0 <= y < old(self).width() implies #[trigger] self.cell(
                x,
                y,
            ) == (if old(self).in_region(start, stop, x, y) {
                Element::Water(1000)
            } else {
                old(self).cell(x, y)
            }) by {
                assert(self.cell(x, y) == placed.cell(x, y));
            }
            assert forall|i: int, j: int|
                0 <= i < self.height() && 0 <= j < self.width() implies (#[trigger] self.cell(
                i,
                j,
            )).wf() by {
                assert(placed.cell(i, j).wf());
            }
            assert forall|i: int| 0 <= i < self.lakes@.len() implies in_grid(
                *self,
                #[trigger] self.lakes@[i],
            ) by {
                if i < placed.lakes@.len() {
                    assert(in_grid(placed, placed.lakes@[i]));
                }
            }
        }
    }

    /// The midpoint of the clamped rectangle `[clamp(start), clamp(stop))`,
    /// which lies inside the rectangle whenever it is nonempty.
    fn region_mid(start: Position, stop: Position, height: usize, width: usize) -> (mid: Position)
        requires
            height <= MAX_DIM,
            width <= MAX_DIM,
            clamp_to(start.x as int, height as int) < clamp_to(stop.x as int, height as int),
            clamp_to(start.y as int, width as int) < clamp_to(stop.y as int, width as int),
        ensures
            mid == region_mid_spec(start, stop, height as int, width as int),
            clamp_to(start.x as int, height as int) <= mid.x as int,
            (mid.x as int) < clamp_to(stop.x as int, height as int),
            clamp_to(start.y as int, width as int) <= mid.y as int,
            (mid.y as int) < clamp_to(stop.y as int, width as int),
    {
        let x0 = Environment::clamp_coord(start.x, height);
        let x1 = Environment::clamp_coord(stop.x, height);
        let y0 = Environment::clamp_coord(start.y, width);
        let y1 = Environment::clamp_coord(stop.y, width);
        Position { x: ((x0 + x1 - 1) / 2) as i32, y: ((y0 + y1 - 1) / 2) as i32 }
    }
}

} // verus!

