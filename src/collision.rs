use vstd::prelude::*;

verus! {

/// What a time-of-impact record points at: two particles, or one particle and a wall.
#[derive(Debug, Clone, Copy, PartialEq, Eq, Structural)]
pub enum Collision {
    Pair(usize, usize),
    Wall(usize),
}

impl Collision {
    /// A pair names its particles in increasing order.
    pub open spec fn wf(self) -> bool {
        match self {
            Collision::Pair(i, j) => i < j,
            Collision::Wall(_) => true,
        }
    }

    /// Whether particle `k` takes part in the collision.
    pub fn involves(&self, k: usize) -> (r: bool)
        ensures
            r == match *self {
                Collision::Pair(i, j) => i == k || j == k,
                Collision::Wall(i) => i == k,
            },
    {
        match self {
            Collision::Pair(i, j) => *i == k || *j == k,
            Collision::Wall(i) => *i == k,
        }
    }
}

/// A candidate event: its time within the step and what collides.
///
/// `time` is the bit pattern of a non-negative IEEE-754 single. For such values the order
/// of the bit patterns as unsigned integers is the order of the times, so the earliest event
/// is found by comparing them as integers.
#[derive(Debug, Clone, Copy, PartialEq, Eq, Structural)]
pub struct Toi {
    pub time: u32,
    pub collision: Collision,
}

impl Toi {
    pub fn new(time: u32, collision: Collision) -> (r: Toi)
        ensures
            r == (Toi { time, collision }),
    {
        Toi { time, collision }
    }
}

/// Whether entry `k` of `c` is a record that beats every record before it and is not beaten
/// by any record after it: the first of the earliest records.
pub open spec fn first_earliest(c: Seq<Option<Toi>>, k: int) -> bool {
    &&& 0 <= k < c.len()
    &&& c[k] is Some
    &&& forall|m: int| 0 <= m < k ==> (#[trigger] c[m] is Some ==> c[m]->0.time > c[k]->0.time)
    &&& forall|m: int| k <= m < c.len() ==> (#[trigger] c[m] is Some ==> c[m]->0.time >= c[k]->0.time)
}

/// The earliest of the per-particle records; among records of equal time, the first.
/// `None` exactly when no particle produced a record.
pub fn earliest(candidates: &Vec<Option<Toi>>) -> (r: Option<Toi>)
    ensures
        r is None <==> forall|k: int| 0 <= k < candidates@.len() ==> #[trigger] candidates@[k] is None,
        r is Some ==> exists|k: int| first_earliest(candidates@, k) && candidates@[k] == r,
{
    let mut best: Option<Toi> = None;
    let ghost mut at: int = 0;
    let mut k: usize = 0;
    while k < candidates.len()
        invariant
            k <= candidates@.len(),
            best is None <==> forall|m: int| 0 <= m < k ==> #[trigger] candidates@[m] is None,
            best is Some ==> {
                &&& 0 <= at < k
                &&& candidates@[at] == best
                &&& forall|m: int| 0 <= m < at ==> (#[trigger] candidates@[m] is Some ==> candidates@[m]->0.time > best->0.time)
                &&& forall|m: int| at <= m < k ==> (#[trigger] candidates@[m] is Some ==> candidates@[m]->0.time >= best->0.time)
            },
        decreases candidates@.len() - k,
    {
        if let Some(t) = candidates[k] {
            let better = match best {
                None => true,
                Some(b) => t.time < b.time,
            };
            if better {
                best = Some(t);
                proof {
                    at = k as int;
                }
            }
        }
        k += 1;
    }
    proof {
        if best is Some {
            assert(first_earliest(candidates@, at));
        }
    }
    best
}

} // verus!
