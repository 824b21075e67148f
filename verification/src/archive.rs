use vstd::prelude::*;
use crate::float_ord::f64_bits_gt;
use crate::utils::clip;

verus! {

/// Row-major position of cell `(r, c)` in a `cells x cells` grid.
pub open spec fn spec_flat(cells: int, r: int, c: int) -> int {
    r * cells + c
}

pub proof fn lemma_flat_in_range(cells: int, r: int, c: int)
    requires
        0 <= r < cells,
        0 <= c < cells,
    ensures
        0 <= spec_flat(cells, r, c) < cells * cells,
{
    assert(0 <= r * cells + c < cells * cells) by (nonlinear_arith)
        requires
            0 <= r < cells,
            0 <= c < cells,
    ;
}

pub proof fn lemma_flat_injective(cells: int, r1: int, c1: int, r2: int, c2: int)
    requires
        0 <= r1 < cells,
        0 <= c1 < cells,
        0 <= r2 < cells,
        0 <= c2 < cells,
        spec_flat(cells, r1, c1) == spec_flat(cells, r2, c2),
    ensures
        r1 == r2,
        c1 == c2,
{
    assert(r1 == r2 && c1 == c2) by (nonlinear_arith)
        requires
            0 <= r1 < cells,
            0 <= c1 < cells,
            0 <= r2 < cells,
            0 <= c2 < cells,
            r1 * cells + c1 == r2 * cells + c2,
    ;
}

/// A raw coordinate clamped into `[0, cells - 1]`.
pub open spec fn spec_clamped_coord(raw: usize, cells: usize) -> usize
    recommends
        cells >= 1,
{
    if raw < cells {
        raw
    } else {
        (cells - 1) as usize
    }
}

/// One elitist decision on a single cell.  From occupancy `occ` and stored
/// objective pattern `stored`, a proposal claims the cell exactly when the
/// cell is free or the proposal is numerically greater; ties and NaN
/// proposals leave the incumbent in place.
pub open spec fn cell_step(occ: bool, stored: u64, proposal: u64) -> (bool, u64) {
    if !occ || f64_bits_gt(proposal, stored) {
        (true, proposal)
    } else {
        (true, stored)
    }
}

/// The occupancy and stored objective of one cell after a whole run of
/// proposals, starting from the empty cell (whose slot holds pattern 0).
pub open spec fn cell_history(proposals: Seq<u64>) -> (bool, u64)
    decreases proposals.len(),
{
    if proposals.len() == 0 {
        (false, 0u64)
    } else {
        let prev = cell_history(proposals.drop_last());
        cell_step(prev.0, prev.1, proposals.last())
    }
}

/// One more proposal extends a cell's history by exactly one elitist
/// decision.  Together with the per-call effect of `try_insert` (whose
/// target slot steps by `cell_step`), a cell offered the proposals of a
/// run one at a time is in state `cell_history` of those proposals.
pub proof fn lemma_history_step(proposals: Seq<u64>, proposal: u64)
    ensures
        cell_history(proposals.push(proposal)) == cell_step(
            cell_history(proposals).0,
            cell_history(proposals).1,
            proposal,
        ),
{
    assert(proposals.push(proposal).drop_last() == proposals);
    assert(proposals.push(proposal).last() == proposal);
}

/// After at least one proposal the cell is occupied, its stored objective
/// is one of the proposals, and no proposal ever made is numerically
/// greater than it: the cell keeps a maximal objective ever proposed.
pub proof fn lemma_stored_objective_is_best(proposals: Seq<u64>)
    requires
        proposals.len() > 0,
    ensures
        cell_history(proposals).0,
        exists|i: int| 0 <= i < proposals.len() && cell_history(proposals).1 == proposals[i],
        forall|i: int|
            0 <= i < proposals.len() ==> !f64_bits_gt(
                #[trigger] proposals[i],
                cell_history(proposals).1,
            ),
    decreases proposals.len(),
{
    let prefix = proposals.drop_last();
    let last = proposals.last();
    if proposals.len() == 1 {
        assert(cell_history(prefix) == (false, 0u64));
        assert(cell_history(proposals).1 == proposals[0]);
        crate::float_ord::lemma_gt_asymmetric(proposals[0], proposals[0]);
    } else {
        lemma_stored_objective_is_best(prefix);
        let s = cell_history(prefix).1;
        let kept = cell_history(proposals).1;
        if f64_bits_gt(last, s) {
            assert(kept == last);
            assert(kept == proposals[proposals.len() - 1]);
            assert forall|i: int| 0 <= i < proposals.len() implies !f64_bits_gt(
                #[trigger] proposals[i],
                kept,
            ) by {
                if i < proposals.len() - 1 {
                    assert(proposals[i] == prefix[i]);
                    assert(!f64_bits_gt(prefix[i], s));
                    if f64_bits_gt(proposals[i], kept) {
                        crate::float_ord::lemma_gt_transitive(proposals[i], kept, s);
                    }
                } else {
                    crate::float_ord::lemma_gt_asymmetric(last, kept);
                }
            }
        } else {
            assert(kept == s);
            let j = choose|j: int| 0 <= j < prefix.len() && s == prefix[j];
            assert(proposals[j] == prefix[j]);
            assert forall|i: int| 0 <= i < proposals.len() implies !f64_bits_gt(
                #[trigger] proposals[i],
                kept,
            ) by {
                if i < proposals.len() - 1 {
                    assert(proposals[i] == prefix[i]);
                }
            }
        }
    }
}

/// The exact effect of offering `(solution, objective, measure)` to cell
/// `(row, col)` of archive `pre`, with `post` the archive afterwards: the
/// cell takes the triple exactly when it is free or the objective is
/// numerically greater than the incumbent's, a newly taken cell is flagged
/// and listed exactly once, and a refused offer changes nothing at all.
pub open spec fn insert_effect(
    pre: Archive,
    post: Archive,
    row: usize,
    col: usize,
    solution: Vec<u64>,
    objective: u64,
    measure: (u64, u64),
) -> bool {
    let f = pre.flat(row as int, col as int);
    let was = pre.occupied@[f];
    let taken = !was || f64_bits_gt(objective, pre.objectives@[f]);
    &&& post.cells == pre.cells
    &&& post.dim == pre.dim
    &&& (post.occupied@[f], post.objectives@[f]) == cell_step(was, pre.objectives@[f], objective)
    &&& (was ==> !f64_bits_gt(pre.objectives@[f], post.objectives@[f]))
    &&& (taken ==> {
        &&& post.solutions@ == pre.solutions@.update(f, solution)
        &&& post.objectives@ == pre.objectives@.update(f, objective)
        &&& post.measures@ == pre.measures@.update(f, measure)
    })
    &&& (taken && was ==> {
        &&& post.occupied@ == pre.occupied@
        &&& post.occupied_list@ == pre.occupied_list@
    })
    &&& (taken && !was ==> {
        &&& post.occupied@ == pre.occupied@.update(f, true)
        &&& post.occupied_list@ == pre.occupied_list@.push((row, col))
    })
    &&& (!taken ==> {
        &&& post.solutions@ == pre.solutions@
        &&& post.objectives@ == pre.objectives@
        &&& post.measures@ == pre.measures@
        &&& post.occupied@ == pre.occupied@
        &&& post.occupied_list@ == pre.occupied_list@
    })
}

/// The grid-indexed archive of elites.  Cell `(r, c)` lives at flat slot
/// `r * cells + c` of each per-slot vector.  Solutions, objectives and
/// measures hold the bit patterns of the doubles they stand for; measures
/// have two coordinates.
pub struct Archive {
    /// Cells along each side of the square grid; immutable for the run.
    pub cells: usize,
    /// Length of every stored solution; immutable for the run.
    pub dim: usize,
    /// Stored solution per slot.
    pub solutions: Vec<Vec<u64>>,
    /// Stored objective pattern per slot.
    pub objectives: Vec<u64>,
    /// Stored measure patterns per slot.
    pub measures: Vec<(u64, u64)>,
    /// Occupancy flag per slot.
    pub occupied: Vec<bool>,
    /// Every occupied cell, each exactly once, in order of first occupancy.
    pub occupied_list: Vec<(usize, usize)>,
}

impl Archive {
    /// Flat slot of cell `(r, c)` in this archive.
    pub open spec fn flat(self, r: int, c: int) -> int {
        spec_flat(self.cells as int, r, c)
    }

    /// Whether a cell lies on the grid.
    pub open spec fn in_bounds(self, rc: (usize, usize)) -> bool {
        rc.0 < self.cells && rc.1 < self.cells
    }

    /// Occupancy of cell `(r, c)`.
    pub open spec fn occ_at(self, r: int, c: int) -> bool {
        self.occupied@[self.flat(r, c)]
    }

    /// Stored objective pattern of cell `(r, c)`.
    pub open spec fn obj_at(self, r: int, c: int) -> u64 {
        self.objectives@[self.flat(r, c)]
    }

    /// Stored solution of cell `(r, c)`.
    pub open spec fn sol_at(self, r: int, c: int) -> Seq<u64> {
        self.solutions@[self.flat(r, c)]@
    }

    /// Stored measure patterns of cell `(r, c)`.
    pub open spec fn meas_at(self, r: int, c: int) -> (u64, u64) {
        self.measures@[self.flat(r, c)]
    }

    /// Well-formedness: consistent shapes, and the occupancy bookkeeping —
    /// the occupied-cell list repeats nothing, names only on-grid occupied
    /// cells, and names every occupied cell.
    pub open spec fn wf(self) -> bool {
        &&& self.cells >= 1
        &&& self.cells * self.cells <= usize::MAX
        &&& self.solutions@.len() == self.cells * self.cells
        &&& self.objectives@.len() == self.cells * self.cells
        &&& self.measures@.len() == self.cells * self.cells
        &&& self.occupied@.len() == self.cells * self.cells
        &&& forall|i: int|
            0 <= i < self.solutions@.len() ==> (#[trigger] self.solutions@[i])@.len() == self.dim
        &&& self.occupied_list@.no_duplicates()
        &&& forall|k: int|
            0 <= k < self.occupied_list@.len() ==> self.in_bounds(#[trigger] self.occupied_list@[k])
        &&& forall|k: int|
            0 <= k < self.occupied_list@.len() ==> self.occ_at(
                (#[trigger] self.occupied_list@[k]).0 as int,
                self.occupied_list@[k].1 as int,
            )
        &&& forall|r: int, c: int|
            0 <= r < self.cells && 0 <= c < self.cells && #[trigger] self.occ_at(r, c)
                ==> self.occupied_list@.contains((r as usize, c as usize))
    }

    /// The set of occupied on-grid cells.
    pub open spec fn occupied_cell_set(self) -> Set<(usize, usize)> {
        Set::new(|rc: (usize, usize)| self.in_bounds(rc) && self.occ_at(rc.0 as int, rc.1 as int))
    }

    /// The empty archive: every slot free and zeroed, no cell listed.
    pub fn new(cells: usize, dim: usize) -> (a: Archive)
        requires
            cells >= 1,
            cells * cells <= usize::MAX,
        ensures
            a.wf(),
            a.cells == cells,
            a.dim == dim,
            a.occupied_list@.len() == 0,
            forall|i: int| 0 <= i < cells * cells ==> !(#[trigger] a.occupied@[i]),
            forall|i: int| 0 <= i < cells * cells ==> (#[trigger] a.objectives@[i]) == 0u64,
            forall|i: int| 0 <= i < cells * cells ==> (#[trigger] a.measures@[i]) == (0u64, 0u64),
            forall|i: int, j: int|
                0 <= i < cells * cells && 0 <= j < dim ==> (#[trigger] a.solutions@[i]@[j]) == 0u64,
    {
        let total: usize = cells * cells;
        let mut solutions: Vec<Vec<u64>> = Vec::new();
        let mut objectives: Vec<u64> = Vec::new();
        let mut measures: Vec<(u64, u64)> = Vec::new();
        let mut occupied: Vec<bool> = Vec::new();
        let mut f: usize = 0;
        while f < total
            invariant
                f <= total,
                solutions@.len() == f,
                objectives@.len() == f,
                measures@.len() == f,
                occupied@.len() == f,
                forall|i: int| 0 <= i < f ==> (#[trigger] solutions@[i])@.len() == dim,
                forall|i: int, j: int|
                    0 <= i < f && 0 <= j < dim ==> (#[trigger] solutions@[i]@[j]) == 0u64,
                forall|i: int| 0 <= i < f ==> !(#[trigger] occupied@[i]),
                forall|i: int| 0 <= i < f ==> (#[trigger] objectives@[i]) == 0u64,
                forall|i: int| 0 <= i < f ==> (#[trigger] measures@[i]) == (0u64, 0u64),
            decreases total - f,
        {
            let mut zero_row: Vec<u64> = Vec::new();
            let mut j: usize = 0;
            while j < dim
                invariant
                    j <= dim,
                    zero_row@.len() == j,
                    forall|t: int| 0 <= t < j ==> (#[trigger] zero_row@[t]) == 0u64,
                decreases dim - j,
            {
                zero_row.push(0u64);
                j = j + 1;
            }
            solutions.push(zero_row);
            objectives.push(0u64);
            measures.push((0u64, 0u64));
            occupied.push(false);
            f = f + 1;
        }
        let a = Archive { cells, dim, solutions, objectives, measures, occupied, occupied_list: Vec::new() };
        proof {
            assert forall|r: int, c: int| 0 <= r < cells && 0 <= c < cells implies !a.occ_at(r, c) by {
                lemma_flat_in_range(cells as int, r, c);
            }
        }
        a
    }

    /// The grid cell of a measure whose raw (already discretized)
    /// coordinates are given: each coordinate clamped into
    /// `[0, cells - 1]`.  A pure function of its inputs, total over all
    /// raw coordinates, so wildly out-of-range measures still land on the
    /// grid.
    pub fn index_for(&self, raw_row: usize, raw_col: usize) -> (cell: (usize, usize))
        requires
            self.cells >= 1,
        ensures
            cell.0 == spec_clamped_coord(raw_row, self.cells),
            cell.1 == spec_clamped_coord(raw_col, self.cells),
            cell.0 < self.cells,
            cell.1 < self.cells,
    {
        let hi: usize = self.cells - 1;
        (clip(raw_row, 0, hi), clip(raw_col, 0, hi))
    }

    /// Offers a (solution, objective, measure) triple to cell
    /// `(row, col)`.  The cell takes the triple exactly when it is free or
    /// the objective is numerically greater than the incumbent's; a newly
    /// taken cell is flagged and listed exactly once; otherwise nothing
    /// at all changes.
    pub fn try_insert(
        &mut self,
        row: usize,
        col: usize,
        solution: Vec<u64>,
        objective: u64,
        measure: (u64, u64),
    )
        requires
            old(self).wf(),
            row < old(self).cells,
            col < old(self).cells,
            solution@.len() == old(self).dim,
        ensures
            final(self).wf(),
            insert_effect(*old(self), *final(self), row, col, solution, objective, measure),
    {
        proof {
            lemma_flat_in_range(self.cells as int, row as int, col as int);
        }
        let f: usize = row * self.cells + col;
        let was: bool = self.occupied[f];
        let taken: bool = !was || crate::float_ord::gt_bits(objective, self.objectives[f]);
        if taken {
            self.solutions.set(f, solution);
            self.objectives.set(f, objective);
            self.measures.set(f, measure);
            if !was {
                proof {
                    if old(self).occupied_list@.contains((row, col)) {
                        let k = choose|k: int|
                            0 <= k < old(self).occupied_list@.len() && old(
                                self,
                            ).occupied_list@[k] == (row, col);
                        assert(old(self).occ_at(row as int, col as int));
                    }
                }
                self.occupied.set(f, true);
                self.occupied_list.push((row, col));
            }
        }
        proof {
            let cells = old(self).cells as int;
            assert forall|r: int, c: int|
                0 <= r < cells && 0 <= c < cells && #[trigger] self.occ_at(r, c)
                    implies self.occupied_list@.contains((r as usize, c as usize)) by {
                lemma_flat_in_range(cells, r, c);
                if self.flat(r, c) == self.flat(row as int, col as int) {
                    lemma_flat_injective(cells, r, c, row as int, col as int);
                    if taken && !was {
                        assert(self.occupied_list@[self.occupied_list@.len() - 1] == (row, col));
                    } else {
                        assert(old(self).occ_at(r, c));
                        assert(old(self).occupied_list@.contains((r as usize, c as usize)));
                        let k = choose|k: int|
                            0 <= k < old(self).occupied_list@.len() && old(
                                self,
                            ).occupied_list@[k] == (r as usize, c as usize);
                        assert(self.occupied_list@[k] == (r as usize, c as usize));
                    }
                } else {
                    assert(old(self).occ_at(r, c));
                    assert(old(self).occupied_list@.contains((r as usize, c as usize)));
                    let k = choose|k: int|
                        0 <= k < old(self).occupied_list@.len() && old(self).occupied_list@[k] == (
                            r as usize,
                            c as usize,
                        );
                    assert(self.occupied_list@[k] == (r as usize, c as usize));
                }
            }
            assert forall|k: int| 0 <= k < self.occupied_list@.len() implies self.occ_at(
                (#[trigger] self.occupied_list@[k]).0 as int,
                self.occupied_list@[k].1 as int,
            ) by {
                if k < old(self).occupied_list@.len() {
                    assert(self.occupied_list@[k] == old(self).occupied_list@[k]);
                    lemma_flat_in_range(
                        cells,
                        self.occupied_list@[k].0 as int,
                        self.occupied_list@[k].1 as int,
                    );
                }
            }
            if taken && !was {
                assert(self.occupied_list@.no_duplicates()) by {
                    assert forall|i: int, j: int|
                        0 <= i < self.occupied_list@.len() && 0 <= j < self.occupied_list@.len()
                            && i != j implies self.occupied_list@[i] != self.occupied_list@[j] by {
                        let n = old(self).occupied_list@.len() as int;
                        if i < n && j < n {
                            assert(self.occupied_list@[i] == old(self).occupied_list@[i]);
                            assert(self.occupied_list@[j] == old(self).occupied_list@[j]);
                        } else if i < n {
                            assert(self.occupied_list@[i] == old(self).occupied_list@[i]);
                            assert(!old(self).occupied_list@.contains((row, col)));
                        } else {
                            assert(self.occupied_list@[j] == old(self).occupied_list@[j]);
                            assert(!old(self).occupied_list@.contains((row, col)));
                        }
                    }
                };
            }
        }
    }

    /// Cell indexing is deterministic: it is a pure function of the raw
    /// coordinates and the grid side alone, so two archives with equal
    /// sides place equal raw coordinates in the same cell (`index_for`
    /// returns exactly these clamped coordinates).
    pub proof fn lemma_index_for_deterministic(self, other: Archive, raw_row: usize, raw_col: usize)
        requires
            self.cells == other.cells,
        ensures
            spec_clamped_coord(raw_row, self.cells) == spec_clamped_coord(raw_row, other.cells),
            spec_clamped_coord(raw_col, self.cells) == spec_clamped_coord(raw_col, other.cells),
    {
    }

    /// One loop-body step of the insert phase: locates the cell of a
    /// candidate from its raw (already discretized) measure coordinates,
    /// offers the candidate to that cell, and reports the cell.
    pub fn commit_candidate(
        &mut self,
        raw_row: usize,
        raw_col: usize,
        solution: Vec<u64>,
        objective: u64,
        measure: (u64, u64),
    ) -> (cell: (usize, usize))
        requires
            old(self).wf(),
            solution@.len() == old(self).dim,
        ensures
            final(self).wf(),
            cell.0 == spec_clamped_coord(raw_row, old(self).cells),
            cell.1 == spec_clamped_coord(raw_col, old(self).cells),
            cell.0 < old(self).cells,
            cell.1 < old(self).cells,
            insert_effect(
                *old(self),
                *final(self),
                cell.0,
                cell.1,
                solution,
                objective,
                measure,
            ),
    {
        let (row, col) = self.index_for(raw_row, raw_col);
        self.try_insert(row, col, solution, objective, measure);
        (row, col)
    }

    /// The occupancy bookkeeping, as one statement: the occupied-cell list
    /// repeats nothing, the cells it lists are exactly the occupied
    /// cells of the grid, and so its length equals the number of occupied
    /// cells.
    pub proof fn lemma_occupancy_bookkeeping(self)
        requires
            self.wf(),
        ensures
            self.occupied_list@.no_duplicates(),
            self.occupied_list@.to_set() =~= self.occupied_cell_set(),
            self.occupied_cell_set().finite(),
            self.occupied_cell_set().len() == self.occupied_list@.len(),
    {
        broadcast use vstd::seq_lib::seq_to_set_is_finite;

        self.occupied_list@.unique_seq_to_set();
        assert forall|rc: (usize, usize)| #[trigger]
            self.occupied_cell_set().contains(rc) implies self.occupied_list@.to_set().contains(
            rc,
        ) by {
            assert(self.occ_at(rc.0 as int, rc.1 as int));
            assert(self.occupied_list@.contains((rc.0, rc.1)));
        }
        assert forall|rc: (usize, usize)| #[trigger]
            self.occupied_list@.to_set().contains(rc) implies self.occupied_cell_set().contains(
            rc,
        ) by {
            let k = choose|k: int|
                0 <= k < self.occupied_list@.len() && self.occupied_list@[k] == rc;
            assert(self.in_bounds(self.occupied_list@[k]));
            assert(self.occ_at(self.occupied_list@[k].0 as int, self.occupied_list@[k].1 as int));
        }
        assert(self.occupied_list@.to_set() =~= self.occupied_cell_set());
    }

    /// How many cells are occupied.
    pub fn num_occupied(&self) -> (n: usize)
        ensures
            n == self.occupied_list@.len(),
    {
        self.occupied_list.len()
    }

    /// The `k`-th occupied cell, in order of first occupancy.
    pub fn occupied_cell(&self, k: usize) -> (rc: (usize, usize))
        requires
            k < self.occupied_list@.len(),
        ensures
            rc == self.occupied_list@[k as int],
    {
        self.occupied_list[k]
    }

    /// Whether cell `(row, col)` is occupied.
    pub fn is_occupied(&self, row: usize, col: usize) -> (b: bool)
        requires
            self.wf(),
            row < self.cells,
            col < self.cells,
        ensures
            b == self.occ_at(row as int, col as int),
    {
        proof {
            lemma_flat_in_range(self.cells as int, row as int, col as int);
        }
        let f: usize = row * self.cells + col;
        self.occupied[f]
    }

    /// The stored objective pattern of cell `(row, col)`.
    pub fn objective_of(&self, row: usize, col: usize) -> (o: u64)
        requires
            self.wf(),
            row < self.cells,
            col < self.cells,
        ensures
            o == self.obj_at(row as int, col as int),
    {
        proof {
            lemma_flat_in_range(self.cells as int, row as int, col as int);
        }
        let f: usize = row * self.cells + col;
        self.objectives[f]
    }

    /// The stored measure patterns of cell `(row, col)`.
    pub fn measure_of(&self, row: usize, col: usize) -> (m: (u64, u64))
        requires
            self.wf(),
            row < self.cells,
            col < self.cells,
        ensures
            m == self.meas_at(row as int, col as int),
    {
        proof {
            lemma_flat_in_range(self.cells as int, row as int, col as int);
        }
        let f: usize = row * self.cells + col;
        self.measures[f]
    }

    /// A copy of the stored solution of cell `(row, col)`.
    pub fn solution_of(&self, row: usize, col: usize) -> (s: Vec<u64>)
        requires
            self.wf(),
            row < self.cells,
            col < self.cells,
        ensures
            s@ == self.sol_at(row as int, col as int),
    {
        proof {
            lemma_flat_in_range(self.cells as int, row as int, col as int);
        }
        let f: usize = row * self.cells + col;
        let mut s: Vec<u64> = Vec::new();
        let mut j: usize = 0;
        let n: usize = self.solutions[f].len();
        while j < n
            invariant
                j <= n,
                f < self.solutions@.len(),
                n == self.solutions@[f as int]@.len(),
                s@ == self.solutions@[f as int]@.take(j as int),
            decreases n - j,
        {
            s.push(self.solutions[f][j]);
            proof {
                assert(s@ =~= self.solutions@[f as int]@.take(j + 1 as int));
            }
            j = j + 1;
        }
        proof {
            assert(s@ =~= self.solutions@[f as int]@);
        }
        s
    }
}

} // verus!
