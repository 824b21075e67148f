use vstd::prelude::*;
use rand::seq::SliceRandom;
use crate::archive::Archive;

verus! {

/// The deterministic generator that drives every randomized draw of a run:
/// rand_pcg's `Mcg128Xsl64`, of which `Pcg64Mcg` is an alias.
#[verifier::external_type_specification]
#[verifier::external_body]
pub struct ExMcg128Xsl64(rand_pcg::Mcg128Xsl64);

/// Relies on rand's `SliceRandom::choose`: on a non-empty slice it returns
/// `Some` element of the slice, picked by the generator.
#[verifier::external_body]
fn choose_cell(list: &Vec<(usize, usize)>, rng: &mut rand_pcg::Pcg64Mcg) -> (rc: (usize, usize))
    requires
        list@.len() > 0,
    ensures
        list@.contains(rc),
{
    *list.choose(rng).unwrap()
}

/// Whether `row` is the stored solution of some cell on the
/// occupied-cell list of `archive`.
pub open spec fn row_from_archive(archive: Archive, row: Seq<u64>) -> bool {
    exists|k: int|
        0 <= k < archive.occupied_list@.len() && row == archive.sol_at(
            (#[trigger] archive.occupied_list@[k]).0 as int,
            archive.occupied_list@[k].1 as int,
        )
}

impl Archive {
    /// The stored solution of an occupied cell drawn from the
    /// occupied-cell list.  An empty list is excluded by precondition —
    /// a caller that cannot rule it out must check first and fail loudly,
    /// never substitute a default.
    pub fn sample_random_occupied(&self, rng: &mut rand_pcg::Pcg64Mcg) -> (s: Vec<u64>)
        requires
            self.wf(),
            self.occupied_list@.len() > 0,
        ensures
            s@.len() == self.dim,
            row_from_archive(*self, s@),
    {
        let rc = choose_cell(&self.occupied_list, rng);
        proof {
            let k = choose|k: int|
                0 <= k < self.occupied_list@.len() && self.occupied_list@[k] == rc;
            assert(self.in_bounds(self.occupied_list@[k]));
            crate::archive::lemma_flat_in_range(self.cells as int, rc.0 as int, rc.1 as int);
        }
        let s = self.solution_of(rc.0, rc.1);
        proof {
            let k = choose|k: int|
                0 <= k < self.occupied_list@.len() && self.occupied_list@[k] == rc;
            assert(s@ == self.sol_at(
                self.occupied_list@[k].0 as int,
                self.occupied_list@[k].1 as int,
            ));
        }
        s
    }
}

/// The seed batch of iteration `itr`: on the first iteration `batch_size`
/// zero vectors, on every later one `batch_size` rows drawn independently
/// (with replacement) from the occupied cells' stored solutions.
pub fn seed_batch(
    archive: &Archive,
    itr: u32,
    batch_size: usize,
    rng: &mut rand_pcg::Pcg64Mcg,
) -> (batch: Vec<Vec<u64>>)
    requires
        archive.wf(),
        itr >= 1,
        itr != 1 ==> archive.occupied_list@.len() > 0,
    ensures
        batch@.len() == batch_size,
        forall|i: int| 0 <= i < batch_size ==> (#[trigger] batch@[i])@.len() == archive.dim,
        itr == 1 ==> forall|i: int, j: int|
            0 <= i < batch_size && 0 <= j < archive.dim ==> (#[trigger] batch@[i]@[j]) == 0u64,
        itr != 1 ==> forall|i: int|
            0 <= i < batch_size ==> row_from_archive(*archive, (#[trigger] batch@[i])@),
{
    if itr == 1 {
        crate::controller::zero_batch(batch_size, archive.dim)
    } else {
        let mut batch: Vec<Vec<u64>> = Vec::new();
        let mut i: usize = 0;
        while i < batch_size
            invariant
                i <= batch_size,
                batch@.len() == i,
                archive.wf(),
                archive.occupied_list@.len() > 0,
                forall|t: int| 0 <= t < i ==> (#[trigger] batch@[t])@.len() == archive.dim,
                forall|t: int| 0 <= t < i ==> row_from_archive(*archive, (#[trigger] batch@[t])@),
            decreases batch_size - i,
        {
            let row = archive.sample_random_occupied(rng);
            batch.push(row);
            i = i + 1;
        }
        batch
    }
}

} // verus!
