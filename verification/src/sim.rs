//! The simulation driver: owns the environment and the inhabitants, builds
//! the world (resource regions), and advances every living agent by one
//! greedy tick at a time against a trained policy.

use vstd::prelude::*;

use crate::agent::greedy_step_spec;
use crate::encoder::nb_states_spec;
use crate::humans::Human;
use crate::policy::Policy;
use crate::types::Position;
use crate::world::{clamp_to, Element, Environment, MAX_DIM};

verus! {

/// The world: the shared environment, its inhabitants, and the cell size a
/// renderer would draw with.
pub struct World {
    pub humans: Vec<Human>,
    pub environment: Environment,
    pub cell_size: usize,
}

impl World {
    /// Every inhabitant is well-formed and stands inside the grid.
    pub open spec fn wf(self) -> bool {
        &&& self.environment.wf()
        &&& forall|i: int|
            0 <= i < self.humans@.len() ==> (#[trigger] self.humans@[i]).wf() && self.humans@[i].in_bounds(
                self.environment,
            )
    }

    /// A fresh world: an empty `height x width` grid, no landmarks, nobody
    /// in it.
    pub fn new(height: usize, width: usize, cell_size: usize) -> (w: World)
        requires
            1 <= height <= MAX_DIM,
            1 <= width <= MAX_DIM,
        ensures
            w.wf(),
            w.environment.world_limits == (height, width),
            w.environment.forests@.len() == 0,
            w.environment.lakes@.len() == 0,
            w.humans@.len() == 0,
            w.cell_size == cell_size,
            forall|x: int, y: int|
                0 <= x < height && 0 <= y < width ==> #[trigger] w.environment.cell(x, y)
                    == Element::Empty,
    {
        let mut cells: Vec<Vec<Element>> = Vec::new();
        while cells.len() < height
            invariant
                cells@.len() <= height,
                forall|i: int| 0 <= i < cells@.len() ==> (#[trigger] cells@[i])@.len() == width,
                forall|i: int, j: int|
                    #![trigger cells@[i]@[j]]
                    0 <= i < cells@.len() && 0 <= j < width ==> cells@[i]@[j] == Element::Empty,
            decreases height - cells@.len(),
        {
            let mut row: Vec<Element> = Vec::new();
            while row.len() < width
                invariant
                    row@.len() <= width,
                    forall|j: int| 0 <= j < row@.len() ==> #[trigger] row@[j] == Element::Empty,
                decreases width - row@.len(),
            {
                row.push(Element::Empty);
            }
            cells.push(row);
        }
        World {
            humans: Vec::new(),
            environment: Environment {
                cells,
                world_limits: (height, width),
                forests: Vec::new(),
                lakes: Vec::new(),
            },
            cell_size,
        }
    }

    /// Adds an inhabitant; it must stand inside the grid.
    pub fn add_human(&mut self, human: Human)
        requires
            old(self).wf(),
            human.wf(),
            human.in_bounds(old(self).environment),
        ensures
            final(self).wf(),
            final(self).environment == old(self).environment,
            final(self).cell_size == old(self).cell_size,
            final(self).humans@ == old(self).humans@.push(human),
    {
        self.humans.push(human);
    }

    /// Fills a rectangle with trees and records its midpoint as a forest
    /// landmark.
    pub fn add_forest(&mut self, start: Position, stop: Position)
        requires
            old(self).wf(),
            clamp_to(start.x as int, old(self).environment.height()) < clamp_to(
                stop.x as int,
                old(self).environment.height(),
            ),
            clamp_to(start.y as int, old(self).environment.width()) < clamp_to(
                stop.y as int,
                old(self).environment.width(),
            ),
        ensures
            final(self).wf(),
            final(self).humans == old(self).humans,
            final(self).cell_size == old(self).cell_size,
            final(self).environment.world_limits == old(self).environment.world_limits,
            final(self).environment.lakes == old(self).environment.lakes,
            final(self).environment.forests@.len() == old(self).environment.forests@.len() + 1,
            forall|x: int, y: int|
                0 <= x < old(self).environment.height() && 0 <= y < old(self).environment.width()
                    ==> #[trigger] final(self).environment.cell(x, y) == (if old(
                    self,
                ).environment.in_region(start, stop, x, y) {
                    Element::Tree(1000)
                } else {
                    old(self).environment.cell(x, y)
                }),
    {
        self.environment.add_forest(start, stop);
        proof {
            assert forall|i: int| 0 <= i < self.humans@.len() implies (#[trigger] self.humans@[i]).wf()
                && self.humans@[i].in_bounds(self.environment) by {
                assert(old(self).humans@[i].in_bounds(old(self).environment));
            }
        }
    }

    /// Fills a rectangle with water and records its midpoint as a lake
    /// landmark.
    pub fn add_lake(&mut self, start: Position, stop: Position)
        requires
            old(self).wf(),
            clamp_to(start.x as int, old(self).environment.height()) < clamp_to(
                stop.x as int,
                old(self).environment.height(),
            ),
            clamp_to(start.y as int, old(self).environment.width()) < clamp_to(
                stop.y as int,
                old(self).environment.width(),
            ),
        ensures
            final(self).wf(),
            final(self).humans == old(self).humans,
            final(self).cell_size == old(self).cell_size,
            final(self).environment.world_limits == old(self).environment.world_limits,
            final(self).environment.forests == old(self).environment.forests,
            final(self).environment.lakes@.len() == old(self).environment.lakes@.len() + 1,
            forall|x: int, y: int|
                0 <= x < old(self).environment.height() && 0 <= y < old(self).environment.width()
                    ==> #[trigger] final(self).environment.cell(x, y) == (if old(
                    self,
                ).environment.in_region(start, stop, x, y) {
                    Element::Water(1000)
                } else {
                    old(self).environment.cell(x, y)
                }),
    {
        self.environment.add_lake(start, stop);
        proof {
            assert forall|i: int| 0 <= i < self.humans@.len() implies (#[trigger] self.humans@[i]).wf()
                && self.humans@[i].in_bounds(self.environment) by {
                assert(old(self).humans@[i].in_bounds(old(self).environment));
            }
        }
    }

    /// One time unit: every living inhabitant takes one greedy step against
    /// `policy`; the dead are left as they are.
    pub fn step_time(&mut self, policy: &Policy)
        requires
            old(self).wf(),
            old(self).environment.has_landmarks(),
            policy.wf(),
            policy.is_init(),
            policy.nb_states() == nb_states_spec(old(self).environment),
            forall|i: int|
                0 <= i < old(self).humans@.len() ==> (#[trigger] old(self).humans@[i]).age
                    < u32::MAX,
        ensures
            final(self).wf(),
            final(self).environment == old(self).environment,
            final(self).cell_size == old(self).cell_size,
            final(self).humans@.len() == old(self).humans@.len(),
            forall|i: int|
                #![trigger final(self).humans@[i]]
                0 <= i < old(self).humans@.len() ==> final(self).humans@[i] == (if old(
                    self,
                ).humans@[i].alive {
                    greedy_step_spec(old(self).humans@[i], old(self).environment, *policy)
                } else {
                    old(self).humans@[i]
                }),
    {
        let mut k: usize = 0;
        while k < self.humans.len()
            invariant
                self.environment == old(self).environment,
                self.cell_size == old(self).cell_size,
                self.environment.wf(),
                self.environment.has_landmarks(),
                policy.wf(),
                policy.is_init(),
                policy.nb_states() == nb_states_spec(self.environment),
                k <= self.humans@.len(),
                self.humans@.len() == old(self).humans@.len(),
                forall|i: int|
                    0 <= i < old(self).humans@.len() ==> (#[trigger] old(self).humans@[i]).age
                        < u32::MAX,
                forall|i: int|
                    0 <= i < self.humans@.len() ==> (#[trigger] self.humans@[i]).wf()
                        && self.humans@[i].in_bounds(self.environment),
                forall|i: int|
                    k <= i < self.humans@.len() ==> #[trigger] self.humans@[i] == old(
                        self,
                    ).humans@[i],
                forall|i: int|
                    #![trigger self.humans@[i]]
                    0 <= i < k ==> self.humans@[i] == (if old(self).humans@[i].alive {
                        greedy_step_spec(old(self).humans@[i], old(self).environment, *policy)
                    } else {
                        old(self).humans@[i]
                    }),
            decreases self.humans@.len() - k,
        {
            let mut h = self.humans[k];
            if h.alive {
                h.step(&self.environment, policy);
            }
            self.humans[k] = h;
            k = k + 1;
        }
    }
}

} // verus!
