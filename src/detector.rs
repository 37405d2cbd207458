use vstd::prelude::*;
use crate::collision::{Collision, Toi};
use crate::grid::{Cell, SpatialGrid, in_rect, near, near_path};

verus! {

/// The search for the earliest event that involves one particle `i` and, for pairs, a
/// particle of higher index.
///
/// The window starts at the step length and shrinks to each better pair time found, so that
/// later pair checks look only for earlier contacts. A wall time replaces the best record
/// when it is earlier, without shrinking the window.
pub struct ParticleScan {
    pub particle: usize,
    pub window: u32,
    pub best: Option<Toi>,
}

impl ParticleScan {
    /// The best record, when there is one, belongs to this particle and lies within the window.
    pub open spec fn wf(&self) -> bool {
        match self.best {
            None => true,
            Some(t) => t.time <= self.window && t.collision.wf() && match t.collision {
                Collision::Pair(a, b) => a == self.particle && a < b,
                Collision::Wall(a) => a == self.particle,
            },
        }
    }

    pub fn new(particle: usize, window: u32) -> (r: ParticleScan)
        ensures
            r == (ParticleScan { particle, window, best: None }),
            r.wf(),
    {
        ParticleScan { particle, window, best: None }
    }

    /// Whether a pair time `t` beats the best record so far.
    pub open spec fn beats(&self, t: u32) -> bool {
        match self.best {
            None => true,
            Some(b) => t < b.time,
        }
    }

    /// Each unordered pair is checked once: from its lower index, towards a higher one.
    pub fn wants(&self, j: usize) -> (r: bool)
        ensures
            r == (j > self.particle),
    {
        j > self.particle
    }

    /// Takes the result of the pair check against `j` over the current window.
    pub fn offer_pair(&mut self, j: usize, t: Option<u32>)
        requires
            old(self).wf(),
            j > old(self).particle,
        ensures
            final(self).wf(),
            final(self).particle == old(self).particle,
            match t {
                Some(x) if x <= old(self).window && old(self).beats(x) => {
                    &&& final(self).window == x
                    &&& final(self).best == Some(Toi { time: x, collision: Collision::Pair(old(self).particle, j) })
                },
                _ => *final(self) == *old(self),
            },
    {
        if let Some(x) = t {
            let better = match self.best {
                None => true,
                Some(b) => x < b.time,
            };
            if x <= self.window && better {
                self.window = x;
                self.best = Some(Toi::new(x, Collision::Pair(self.particle, j)));
            }
        }
    }

    /// Takes the result of the wall check over the current window.
    pub fn offer_wall(&mut self, t: Option<u32>)
        requires
            old(self).wf(),
        ensures
            final(self).wf(),
            final(self).particle == old(self).particle,
            final(self).window == old(self).window,
            match t {
                Some(x) if x <= old(self).window && old(self).beats(x) => final(self).best == Some(
                    Toi { time: x, collision: Collision::Wall(old(self).particle) },
                ),
                _ => final(self).best == old(self).best,
            },
    {
        if let Some(x) = t {
            let better = match self.best {
                None => true,
                Some(b) => x < b.time,
            };
            if x <= self.window && better {
                self.best = Some(Toi::new(x, Collision::Wall(self.particle)));
            }
        }
    }
}

/// Broadphase over the 3x3 block of cells around each particle.
pub struct CellListDetector;

/// Broadphase over the cells that a ray march along each particle's velocity steps through,
/// widened by the reach of the largest radius.
pub struct TccdDetector;

/// Broadphase over the cells that the inflated bounding box of each particle's sweep covers.
pub struct SweptAabbDetector;

impl CellListDetector {
    pub fn candidates(&self, grid: &SpatialGrid, i: usize) -> (r: Vec<usize>)
        requires
            grid.wf(),
            i < grid.coords().len(),
        ensures
            r@.no_duplicates(),
            forall|j: usize| #[trigger]
                r@.contains(j) <==> (j < grid.coords().len() && near(
                    grid.coords()[j as int],
                    grid.coords()[i as int],
                    1,
                )),
    {
        grid.cell_list(i)
    }

    /// The wall is checked whatever the window has shrunk to.
    pub fn checks_wall(&self, scan: &ParticleScan) -> (r: bool)
        ensures
            r,
    {
        true
    }
}

impl TccdDetector {
    pub fn candidates(&self, grid: &SpatialGrid, i: usize, path: &Vec<Cell>, k: u32) -> (r: Vec<
        usize,
    >)
        requires
            grid.wf(),
            i < grid.coords().len(),
        ensures
            r@.no_duplicates(),
            forall|j: usize| #[trigger]
                r@.contains(j) <==> (j < grid.coords().len() && j != i && near_path(
                    grid.coords()[j as int],
                    path@,
                    k as int,
                    path@.len() as int,
                )),
    {
        grid.candidates_along_sweep_with_radius(i, path, k)
    }

    /// The wall is checked only while the window is still open: a pair contact at time zero
    /// leaves nothing to look for.
    pub fn checks_wall(&self, scan: &ParticleScan) -> (r: bool)
        ensures
            r == (scan.window > 0),
    {
        scan.window > 0
    }
}

impl SweptAabbDetector {
    pub fn candidates(&self, grid: &SpatialGrid, i: usize, lo: Cell, hi: Cell) -> (r: Vec<usize>)
        requires
            grid.wf(),
            i < grid.coords().len(),
        ensures
            r@.no_duplicates(),
            forall|j: usize| #[trigger]
                r@.contains(j) <==> (j < grid.coords().len() && j != i && in_rect(
                    grid.coords()[j as int],
                    (lo.0 as i64, lo.1 as i64),
                    (hi.0 as i64, hi.1 as i64),
                )),
    {
        grid.candidates_swept_aabb(i, lo, hi)
    }

    /// The wall is checked whatever the window has shrunk to.
    pub fn checks_wall(&self, scan: &ParticleScan) -> (r: bool)
        ensures
            r,
    {
        true
    }
}

} // verus!
