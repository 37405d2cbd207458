use vstd::prelude::*;
use crate::collision::Toi;

verus! {

/// The most events resolved within one frame; past it the final clamp decides.
pub const MAX_ITER: usize = 100;

/// The decisions of one frame's event loop.
///
/// Each sub-iteration either finds the rest of the step spent or no event in it, in which
/// case all particles advance to the end of the step and the loop ends, or it resolves exactly
/// one event, the earliest. After at most `MAX_ITER` events the loop ends too, and the driver
/// clamps every particle into the arena.
pub struct FrameLoop {
    pub iterations: usize,
    pub finished: bool,
}

impl FrameLoop {
    pub open spec fn wf(&self) -> bool {
        self.iterations <= MAX_ITER
    }

    pub fn new() -> (r: FrameLoop)
        ensures
            r.wf(),
            r.iterations == 0,
            !r.finished,
    {
        FrameLoop { iterations: 0, finished: false }
    }

    /// Whether another sub-iteration runs.
    pub fn running(&self) -> (r: bool)
        ensures
            r == (!self.finished && self.iterations < MAX_ITER),
    {
        !self.finished && self.iterations < MAX_ITER
    }

    /// Starts a sub-iteration. When the rest of the step is spent the loop ends, and the
    /// driver advances by that rest; otherwise the detector runs (`true`).
    pub fn start(&mut self, rest_spent: bool) -> (detect: bool)
        requires
            old(self).wf(),
            !old(self).finished,
            old(self).iterations < MAX_ITER,
        ensures
            final(self).wf(),
            detect == !rest_spent,
            final(self).iterations == old(self).iterations,
            final(self).finished == rest_spent,
    {
        if rest_spent {
            self.finished = true;
        }
        !rest_spent
    }

    /// Takes the detector's answer. With no event the loop ends and the driver advances by the
    /// rest of the step; with one, that single event is the one to resolve.
    pub fn settle(&mut self, found: Option<Toi>) -> (r: Option<Toi>)
        requires
            old(self).wf(),
            !old(self).finished,
            old(self).iterations < MAX_ITER,
        ensures
            final(self).wf(),
            r == found,
            found is None ==> final(self).finished && final(self).iterations == old(self).iterations,
            found is Some ==> !final(self).finished && final(self).iterations == old(self).iterations + 1,
    {
        match found {
            None => {
                self.finished = true;
                None
            },
            Some(t) => {
                self.iterations = self.iterations + 1;
                Some(t)
            },
        }
    }
}

/// The four walls of the arena.
#[derive(Debug, Clone, Copy, PartialEq, Eq, Structural)]
pub enum Wall {
    Left,
    Right,
    Bottom,
    Top,
}

impl Wall {
    /// The wall that a particle has reached, from where it stands against its clamped interval:
    /// the left and right edges are looked at first, then the bottom one, and the top one is
    /// what is left.
    pub fn reached(at_x_min: bool, at_x_max: bool, at_y_min: bool) -> (r: Wall)
        ensures
            r == (if at_x_min {
                Wall::Left
            } else if at_x_max {
                Wall::Right
            } else if at_y_min {
                Wall::Bottom
            } else {
                Wall::Top
            }),
    {
        if at_x_min {
            Wall::Left
        } else if at_x_max {
            Wall::Right
        } else if at_y_min {
            Wall::Bottom
        } else {
            Wall::Top
        }
    }

    pub open spec fn normal_spec(self) -> (int, int) {
        match self {
            Wall::Left => (-1, 0),
            Wall::Right => (1, 0),
            Wall::Bottom => (0, -1),
            Wall::Top => (0, 1),
        }
    }

    /// The outward unit normal of the wall.
    pub fn normal(&self) -> (r: (i8, i8))
        ensures
            (r.0 as int, r.1 as int) == self.normal_spec(),
    {
        match self {
            Wall::Left => (-1, 0),
            Wall::Right => (1, 0),
            Wall::Bottom => (0, -1),
            Wall::Top => (0, 1),
        }
    }

    pub open spec fn tag_spec(self) -> Seq<char> {
        match self {
            Wall::Left => "left"@,
            Wall::Right => "right"@,
            Wall::Bottom => "bottom"@,
            Wall::Top => "top"@,
        }
    }

    /// The name under which wall events are recorded.
    pub fn tag(&self) -> (r: &'static str)
        ensures
            r@ == self.tag_spec(),
    {
        match self {
            Wall::Left => "left",
            Wall::Right => "right",
            Wall::Bottom => "bottom",
            Wall::Top => "top",
        }
    }
}

} // verus!
