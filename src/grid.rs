use vstd::prelude::*;
use std::collections::HashMap;

verus! {

broadcast use vstd::std_specs::hash::group_hash_axioms;

/// Integer coordinates of a grid cell.
pub type Cell = (i32, i32);

/// The number of values of one 32-bit coordinate.
pub open spec fn key_span() -> int {
    0x1_0000_0000
}

/// The shift that takes an `i32` coordinate to `[0, 2^32)`.
pub open spec fn key_offset() -> int {
    0x8000_0000
}

/// The hash key of a cell: both coordinates shifted to `[0, 2^32)` and packed into one word.
pub open spec fn cell_key(c: Cell) -> u64 {
    ((c.0 as int + key_offset()) * key_span() + (c.1 as int + key_offset())) as u64
}

/// Distinct cells have distinct keys.
pub proof fn lemma_cell_key_injective(a: Cell, b: Cell)
    ensures
        cell_key(a) == cell_key(b) ==> a == b,
{
    let xa = a.0 as int + key_offset();
    let ya = a.1 as int + key_offset();
    let xb = b.0 as int + key_offset();
    let yb = b.1 as int + key_offset();
    assert(0 <= xa * key_span() + ya < 0x1_0000_0000_0000_0000) by (nonlinear_arith)
        requires 0 <= xa < key_span(), 0 <= ya < key_span(), key_span() == 0x1_0000_0000;
    assert(0 <= xb * key_span() + yb < 0x1_0000_0000_0000_0000) by (nonlinear_arith)
        requires 0 <= xb < key_span(), 0 <= yb < key_span(), key_span() == 0x1_0000_0000;
    if cell_key(a) == cell_key(b) {
        assert(xa * key_span() + ya == xb * key_span() + yb);
        assert(xa == xb && ya == yb) by (nonlinear_arith)
            requires
                xa * key_span() + ya == xb * key_span() + yb,
                0 <= ya < key_span(),
                0 <= yb < key_span(),
                key_span() == 0x1_0000_0000,
        ;
    }
}

fn key_of(c: Cell) -> (r: u64)
    ensures
        r == cell_key(c),
{
    let x = (c.0 as i64 + 0x8000_0000) as u64;
    let y = (c.1 as i64 + 0x8000_0000) as u64;
    assert(x * 0x1_0000_0000 + y < 0x1_0000_0000_0000_0000) by (nonlinear_arith)
        requires x < 0x1_0000_0000, y < 0x1_0000_0000;
    x * 0x1_0000_0000 + y
}

/// The indices `i` with `coords[i] == c`, in increasing order.
pub open spec fn members(coords: Seq<Cell>, c: Cell) -> Seq<usize>
    decreases coords.len(),
{
    if coords.len() == 0 {
        Seq::empty()
    } else {
        let before = members(coords.drop_last(), c);
        if coords.last() == c {
            before.push((coords.len() - 1) as usize)
        } else {
            before
        }
    }
}

/// `members` holds each index of a particle in cell `c` once, in increasing order, and nothing else.
pub proof fn lemma_members(coords: Seq<Cell>, c: Cell)
    requires
        coords.len() <= usize::MAX,
    ensures
        forall|j: usize| #[trigger]
            members(coords, c).contains(j) <==> (j < coords.len() && coords[j as int] == c),
        forall|a: int, b: int|
            0 <= a < b < members(coords, c).len() ==> members(coords, c)[a] < members(coords, c)[b],
        forall|a: int|
            0 <= a < members(coords, c).len() ==> members(coords, c)[a] < coords.len(),
    decreases coords.len(),
{
    if coords.len() > 0 {
        let d = coords.drop_last();
        let n = coords.len();
        lemma_members(d, c);
        let md = members(d, c);
        let m = members(coords, c);
        assert forall|j: usize| #[trigger] m.contains(j) <==> (j < n && coords[j as int] == c) by {
            if j < d.len() {
                assert(d[j as int] == coords[j as int]);
            }
            if coords.last() == c {
                assert(m == md.push((n - 1) as usize));
                if md.contains(j) {
                    let k = choose|k: int| 0 <= k < md.len() && md[k] == j;
                    assert(m[k] == j);
                }
                if m.contains(j) {
                    let k = choose|k: int| 0 <= k < m.len() && m[k] == j;
                    if k < md.len() {
                        assert(md[k] == j);
                    }
                }
                if j == n - 1 {
                    assert(m[md.len() as int] == j);
                }
            } else {
                assert(m == md);
            }
        }
    }
}

/// A scan's running output: particle indices without repeats, each marked in `seen`.
pub open spec fn scan_state(coords: Seq<Cell>, seen: Seq<bool>, out: Seq<usize>) -> bool {
    &&& out.no_duplicates()
    &&& forall|k: int| 0 <= k < out.len() ==> (#[trigger] out[k]) < coords.len() && seen[out[k] as int]
}

/// Whether cell `c` lies in the rectangle with corners `lo` and `hi`, both included.
pub open spec fn in_rect(c: Cell, lo: (i64, i64), hi: (i64, i64)) -> bool {
    lo.0 <= c.0 as i64 <= hi.0 && lo.1 <= c.1 as i64 <= hi.1
}

/// Whether cell `c` lies within `k` cells of `d` along both axes.
pub open spec fn near(c: Cell, d: Cell, k: int) -> bool {
    d.0 - k <= c.0 <= d.0 + k && d.1 - k <= c.1 <= d.1 + k
}

/// Whether cell `c` lies within `k` cells of one of the first `upto` cells of `path`.
pub open spec fn near_path(c: Cell, path: Seq<Cell>, k: int, upto: int) -> bool {
    exists|p: int| 0 <= p < upto && #[trigger] near(c, path[p], k)
}

/// The cells of `[lo, hi]` that a row-by-row scan has passed before reaching `(cx, cy)`.
pub open spec fn row_scanned(c: Cell, lo: (i64, i64), hi: (i64, i64), cy: int, cx: int) -> bool {
    (lo.0 <= c.0 <= hi.0 && lo.1 <= c.1 < cy) || (c.1 == cy && lo.0 <= c.0 < cx)
}

/// The cells of `[lo, hi]` in the rows below `cy`.
pub open spec fn rows_scanned(c: Cell, lo: (i64, i64), hi: (i64, i64), cy: int) -> bool {
    lo.0 <= c.0 <= hi.0 && lo.1 <= c.1 < cy
}

/// What the map holds for cell `c`, empty where it holds nothing.
pub open spec fn cell_seq(cells: Map<u64, Vec<usize>>, c: Cell) -> Seq<usize> {
    if cells.contains_key(cell_key(c)) {
        cells[cell_key(c)]@
    } else {
        Seq::empty()
    }
}

/// Uniform hash grid: each cell holds, in increasing order, the indices of the particles
/// whose centre lies in it.
pub struct SpatialGrid {
    coords: Vec<Cell>,
    cells: HashMap<u64, Vec<usize>>,
}

impl SpatialGrid {
    /// The cell of each particle, by index.
    pub closed spec fn coords(&self) -> Seq<Cell> {
        self.coords@
    }

    pub closed spec fn wf(&self) -> bool {
        &&& self.coords@.len() <= usize::MAX
        &&& forall|c: Cell| #[trigger] cell_seq(self.cells@, c) == members(self.coords@, c)
    }

    /// The particles that the grid holds in cell `c`.
    pub open spec fn in_cell(&self, c: Cell) -> Seq<usize> {
        members(self.coords(), c)
    }

    pub fn new() -> (r: Self)
        ensures
            r.wf(),
            r.coords() == Seq::<Cell>::empty(),
    {
        SpatialGrid { coords: Vec::new(), cells: HashMap::new() }
    }

    /// Clears the grid, then files each particle index under its cell.
    pub fn rebuild(&mut self, coords: Vec<Cell>)
        ensures
            final(self).wf(),
            final(self).coords() == coords@,
    {
        self.cells.clear();
        let n = coords.len();
        let mut i: usize = 0;
        while i < n
            invariant
                n == coords.len(),
                i <= n,
                forall|c: Cell| #[trigger]
                    cell_seq(self.cells@, c) == members(coords@.take(i as int), c),
            decreases n - i,
        {
            let ci = coords[i];
            let key = key_of(ci);
            let ghost before = self.cells@;
            assert(cell_seq(before, ci) == members(coords@.take(i as int), ci));
            let mut list = match self.cells.remove(&key) {
                Some(l) => l,
                None => Vec::new(),
            };
            proof {
                assert(list@ == members(coords@.take(i as int), ci));
            }
            list.push(i);
            assert(list@ == members(coords@.take(i as int), ci).push(i));
            self.cells.insert(key, list);
            proof {
                let t = coords@.take(i as int + 1);
                assert(t.drop_last() == coords@.take(i as int));
                assert forall|c: Cell| #[trigger]
                    cell_seq(self.cells@, c) == members(t, c) by {
                    lemma_cell_key_injective(c, ci);
                    assert(t.last() == ci);
                    if c == ci {
                        assert(cell_seq(self.cells@, c) == list@);
                    } else {
                        assert(cell_seq(before, c) == members(coords@.take(i as int), c));
                        assert(cell_seq(self.cells@, c) == cell_seq(before, c));
                    }
                }
            }
            i += 1;
        }
        assert(coords@.take(n as int) == coords@);
        self.coords = coords;
    }

    /// The number of particles filed by the last rebuild.
    pub fn len(&self) -> (r: usize)
        ensures
            r == self.coords().len(),
    {
        self.coords.len()
    }

    /// The cell of particle `i`.
    pub fn cell_of(&self, i: usize) -> (r: Cell)
        requires
            i < self.coords().len(),
        ensures
            r == self.coords()[i as int],
    {
        self.coords[i]
    }

    /// Appends to `out` each particle of cell `c` that `seen` does not mark yet, and marks it.
    fn take_cell(&self, c: Cell, seen: &mut Vec<bool>, out: &mut Vec<usize>)
        requires
            self.wf(),
            old(seen)@.len() == self.coords().len(),
            scan_state(self.coords(), old(seen)@, old(out)@),
        ensures
            final(seen)@.len() == self.coords().len(),
            scan_state(self.coords(), final(seen)@, final(out)@),
            forall|j: int|
                0 <= j < self.coords().len() ==> (#[trigger] final(seen)@[j] <==> (old(seen)@[j]
                    || self.coords()[j] == c)),
            forall|j: usize| #[trigger]
                final(out)@.contains(j) <==> (old(out)@.contains(j) || (j < self.coords().len()
                    && !old(seen)@[j as int] && self.coords()[j as int] == c)),
    {
        let ghost coords = self.coords();
        let ghost n = coords.len();
        proof {
            lemma_members(coords, c);
        }
        let key = key_of(c);
        assert(cell_seq(self.cells@, c) == members(coords, c));
        match self.cells.get(&key) {
            None => {
                assert forall|j: usize| j < n implies coords[j as int] != c by {
                    if coords[j as int] == c {
                        assert(members(coords, c).contains(j));
                    }
                }
            },
            Some(list) => {
                let ghost l = list@;
                assert(l == members(coords, c));
                let ghost seen0 = seen@;
                let ghost out0 = out@;
                let mut p: usize = 0;
                while p < list.len()
                    invariant
                        l == list@,
                        l == members(coords, c),
                        n == coords.len(),
                        n <= usize::MAX,
                        seen@.len() == n,
                        p <= l.len(),
                        scan_state(coords, seen@, out@),
                        forall|j: int|
                            0 <= j < n ==> (#[trigger] seen@[j] <==> (seen0[j] || (coords[j] == c
                                && l.take(p as int).contains(j as usize)))),
                        forall|j: usize| #[trigger]
                            out@.contains(j) <==> (out0.contains(j) || (!seen0[j as int]
                                && l.take(p as int).contains(j))),
                        forall|j: usize| out0.contains(j) ==> j < n && seen0[j as int],
                    decreases l.len() - p,
                {
                    let j = list[p];
                    proof {
                        lemma_members(coords, c);
                    }
                    assert(l[p as int] == j);
                    assert(l.contains(j));
                    assert(j < n && coords[j as int] == c);
                    assert(!l.take(p as int).contains(j)) by {
                        if l.take(p as int).contains(j) {
                            let k = choose|k: int| 0 <= k < p && l.take(p as int)[k] == j;
                            assert(l[k] < l[p as int]);
                        }
                    }
                    assert(seen@[j as int] == seen0[j as int]);
                    let ghost tp = l.take(p as int);
                    let ghost tq = l.take(p as int + 1);
                    assert(tq == tp.push(j));
                    assert forall|x: usize| tq.contains(x) <==> (tp.contains(x) || x == j) by {
                        if tq.contains(x) {
                            let k = choose|k: int| 0 <= k < tq.len() && tq[k] == x;
                            if k < tp.len() {
                                assert(tp[k] == x);
                            }
                        }
                        if tp.contains(x) {
                            let k = choose|k: int| 0 <= k < tp.len() && tp[k] == x;
                            assert(tq[k] == x);
                        }
                        if x == j {
                            assert(tq[p as int] == x);
                        }
                    }
                    let ghost out_before = out@;
                    if !seen[j] {
                        seen.set(j, true);
                        out.push(j);
                        assert(out@ == out_before.push(j));
                        assert forall|x: usize| #[trigger]
                            out@.contains(x) <==> (out_before.contains(x) || x == j) by {
                            if out@.contains(x) {
                                let k = choose|k: int| 0 <= k < out@.len() && out@[k] == x;
                                if k < out_before.len() {
                                    assert(out_before[k] == x);
                                }
                            }
                            if out_before.contains(x) {
                                let k = choose|k: int| 0 <= k < out_before.len() && out_before[k] == x;
                                assert(out@[k] == x);
                            }
                            assert(out@[out_before.len() as int] == j);
                        }
                    }
                    assert forall|x: usize| #[trigger]
                        out@.contains(x) <==> (out0.contains(x) || (!seen0[x as int]
                            && tq.contains(x))) by {
                        assert(out_before.contains(x) <==> (out0.contains(x) || (!seen0[x as int]
                            && tp.contains(x))));
                        if x == j {
                            assert(out@.contains(x) <==> (out0.contains(x) || !seen0[x as int]));
                        } else {
                            assert(out@.contains(x) <==> out_before.contains(x));
                        }
                    }
                    p += 1;
                }
                assert(l.take(l.len() as int) == l);
                proof {
                    lemma_members(coords, c);
                }
                assert forall|j: int| 0 <= j < n implies (#[trigger] seen@[j] <==> (seen0[j]
                    || coords[j] == c)) by {
                    assert(l.contains(j as usize) <==> coords[j] == c);
                }
            },
        }
    }

    /// Runs `take_cell` over every cell of the rectangle `[lo, hi]`, row by row.
    fn scan_rect(&self, lo: (i64, i64), hi: (i64, i64), seen: &mut Vec<bool>, out: &mut Vec<usize>)
        requires
            self.wf(),
            old(seen)@.len() == self.coords().len(),
            scan_state(self.coords(), old(seen)@, old(out)@),
            hi.0 < i64::MAX,
            hi.1 < i64::MAX,
        ensures
            final(seen)@.len() == self.coords().len(),
            scan_state(self.coords(), final(seen)@, final(out)@),
            forall|j: int|
                0 <= j < self.coords().len() ==> (#[trigger] final(seen)@[j] <==> (old(seen)@[j]
                    || in_rect(self.coords()[j], lo, hi))),
            forall|j: usize| #[trigger]
                final(out)@.contains(j) <==> (old(out)@.contains(j) || (j < self.coords().len()
                    && !old(seen)@[j as int] && in_rect(self.coords()[j as int], lo, hi))),
    {
        let ghost coords = self.coords();
        let ghost n = coords.len();
        let ghost seen0 = seen@;
        let ghost out0 = out@;
        let mut cy: i64 = lo.1;
        while cy <= hi.1
            invariant
                self.wf(),
                coords == self.coords(),
                n == coords.len(),
                seen@.len() == n,
                scan_state(coords, seen@, out@),
                lo.1 <= cy,
                cy <= hi.1 + 1 || cy == lo.1,
                hi.0 < i64::MAX,
                hi.1 < i64::MAX,
                forall|j: int|
                    0 <= j < n ==> (#[trigger] seen@[j] <==> (seen0[j] || rows_scanned(
                        coords[j],
                        lo,
                        hi,
                        cy as int,
                    ))),
                forall|j: usize| #[trigger]
                    out@.contains(j) <==> (out0.contains(j) || (j < n && !seen0[j as int]
                        && rows_scanned(coords[j as int], lo, hi, cy as int))),
            decreases hi.1 + 1 - cy,
        {
            let mut cx: i64 = lo.0;
            while cx <= hi.0
                invariant
                    self.wf(),
                    coords == self.coords(),
                    n == coords.len(),
                    seen@.len() == n,
                    scan_state(coords, seen@, out@),
                    lo.1 <= cy <= hi.1,
                    lo.0 <= cx,
                    cx <= hi.0 + 1 || cx == lo.0,
                    hi.0 < i64::MAX,
                    forall|j: int|
                        0 <= j < n ==> (#[trigger] seen@[j] <==> (seen0[j] || row_scanned(
                            coords[j],
                            lo,
                            hi,
                            cy as int,
                            cx as int,
                        ))),
                    forall|j: usize| #[trigger]
                        out@.contains(j) <==> (out0.contains(j) || (j < n && !seen0[j as int]
                            && row_scanned(coords[j as int], lo, hi, cy as int, cx as int))),
                decreases hi.0 + 1 - cx,
            {
                let ghost seen1 = seen@;
                let ghost out1 = out@;
                if i32::MIN as i64 <= cx && cx <= i32::MAX as i64 && i32::MIN as i64 <= cy && cy
                    <= i32::MAX as i64 {
                    self.take_cell((cx as i32, cy as i32), seen, out);
                }
                assert forall|j: int|
                    0 <= j < n implies (#[trigger] seen@[j] <==> (seen0[j] || row_scanned(
                        coords[j],
                        lo,
                        hi,
                        cy as int,
                        cx + 1,
                    ))) by {
                    assert(seen1[j] <==> (seen0[j] || row_scanned(coords[j], lo, hi, cy as int, cx as int)));
                }
                assert forall|j: usize| #[trigger]
                    out@.contains(j) <==> (out0.contains(j) || (j < n && !seen0[j as int]
                        && row_scanned(coords[j as int], lo, hi, cy as int, cx + 1))) by {
                    assert(out1.contains(j) <==> (out0.contains(j) || (j < n && !seen0[j as int]
                        && row_scanned(coords[j as int], lo, hi, cy as int, cx as int))));
                    if j < n {
                        assert(seen1[j as int] <==> (seen0[j as int] || row_scanned(
                            coords[j as int],
                            lo,
                            hi,
                            cy as int,
                            cx as int,
                        )));
                    }
                }
                cx += 1;
            }
            cy += 1;
        }
    }

    /// The particles in the 3x3 block of cells centred on the cell of particle `i`,
    /// `i` itself included.
    pub fn cell_list(&self, i: usize) -> (r: Vec<usize>)
        requires
            self.wf(),
            i < self.coords().len(),
        ensures
            r@.no_duplicates(),
            forall|j: usize| #[trigger]
                r@.contains(j) <==> (j < self.coords().len() && near(
                    self.coords()[j as int],
                    self.coords()[i as int],
                    1,
                )),
    {
        let n = self.coords.len();
        let mut seen: Vec<bool> = vec![false; n];
        let mut out: Vec<usize> = Vec::new();
        let c = self.coords[i];
        let lo: (i64, i64) = (c.0 as i64 - 1, c.1 as i64 - 1);
        let hi: (i64, i64) = (c.0 as i64 + 1, c.1 as i64 + 1);
        self.scan_rect(lo, hi, &mut seen, &mut out);
        out
    }

    /// The particles other than `i` whose cell lies in the rectangle `[lo, hi]`: the cells that
    /// the inflated bounding box of `i`'s sweep covers.
    pub fn candidates_swept_aabb(&self, i: usize, lo: Cell, hi: Cell) -> (r: Vec<usize>)
        requires
            self.wf(),
            i < self.coords().len(),
        ensures
            r@.no_duplicates(),
            forall|j: usize| #[trigger]
                r@.contains(j) <==> (j < self.coords().len() && j != i && in_rect(
                    self.coords()[j as int],
                    (lo.0 as i64, lo.1 as i64),
                    (hi.0 as i64, hi.1 as i64),
                )),
    {
        let n = self.coords.len();
        let mut seen: Vec<bool> = vec![false; n];
        seen.set(i, true);
        let mut out: Vec<usize> = Vec::new();
        self.scan_rect((lo.0 as i64, lo.1 as i64), (hi.0 as i64, hi.1 as i64), &mut seen, &mut out);
        out
    }

    /// The particles other than `i` within `k` cells, along both axes, of some cell of `path`:
    /// the cells that a ray march from `i` along its velocity steps through.
    pub fn candidates_along_sweep_with_radius(&self, i: usize, path: &Vec<Cell>, k: u32) -> (r: Vec<
        usize,
    >)
        requires
            self.wf(),
            i < self.coords().len(),
        ensures
            r@.no_duplicates(),
            forall|j: usize| #[trigger]
                r@.contains(j) <==> (j < self.coords().len() && j != i && near_path(
                    self.coords()[j as int],
                    path@,
                    k as int,
                    path@.len() as int,
                )),
    {
        let ghost coords = self.coords();
        let n = self.coords.len();
        let mut seen: Vec<bool> = vec![false; n];
        seen.set(i, true);
        let mut out: Vec<usize> = Vec::new();
        let mut p: usize = 0;
        while p < path.len()
            invariant
                self.wf(),
                coords == self.coords(),
                n == coords.len(),
                i < n,
                seen@.len() == n,
                p <= path@.len(),
                scan_state(coords, seen@, out@),
                forall|j: int|
                    0 <= j < n ==> (#[trigger] seen@[j] <==> (j == i || near_path(
                        coords[j],
                        path@,
                        k as int,
                        p as int,
                    ))),
                forall|j: usize| #[trigger]
                    out@.contains(j) <==> (j < n && j != i && near_path(
                        coords[j as int],
                        path@,
                        k as int,
                        p as int,
                    )),
            decreases path@.len() - p,
        {
            let c = path[p];
            let lo: (i64, i64) = (c.0 as i64 - k as i64, c.1 as i64 - k as i64);
            let hi: (i64, i64) = (c.0 as i64 + k as i64, c.1 as i64 + k as i64);
            let ghost seen1 = seen@;
            let ghost out1 = out@;
            self.scan_rect(lo, hi, &mut seen, &mut out);
            assert forall|j: int| 0 <= j < n implies (#[trigger] seen@[j] <==> (j == i || near_path(
                coords[j],
                path@,
                k as int,
                p + 1,
            ))) by {
                assert(seen1[j] <==> (j == i || near_path(coords[j], path@, k as int, p as int)));
                if near(coords[j], path@[p as int], k as int) {
                    assert(near_path(coords[j], path@, k as int, p + 1));
                }
                if near_path(coords[j], path@, k as int, p + 1) && !near(coords[j], path@[p as int], k as int) {
                    let q = choose|q: int| 0 <= q < p + 1 && near(coords[j], path@[q], k as int);
                    assert(near_path(coords[j], path@, k as int, p as int));
                }
            }
            assert forall|j: usize| #[trigger]
                out@.contains(j) <==> (j < n && j != i && near_path(
                    coords[j as int],
                    path@,
                    k as int,
                    p + 1,
                )) by {
                if j < n {
                    assert(seen1[j as int] <==> (j == i || near_path(coords[j as int], path@, k as int, p as int)));
                    if near(coords[j as int], path@[p as int], k as int) {
                        assert(near_path(coords[j as int], path@, k as int, p + 1));
                    }
                    if near_path(coords[j as int], path@, k as int, p + 1) && !near(coords[j as int], path@[p as int], k as int) {
                        let q = choose|q: int| 0 <= q < p + 1 && near(coords[j as int], path@[q], k as int);
                        assert(near_path(coords[j as int], path@, k as int, p as int));
                    }
                }
            }
            p += 1;
        }
        out
    }
}

} // verus!
