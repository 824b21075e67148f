use vstd::prelude::*;

verus! {

/// A batch of `batch_size` zero solutions of length `dim`: the seed rows
/// of a run's first iteration (the pattern of the double zero is 0).
pub fn zero_batch(batch_size: usize, dim: usize) -> (batch: Vec<Vec<u64>>)
    ensures
        batch@.len() == batch_size,
        forall|i: int| 0 <= i < batch_size ==> (#[trigger] batch@[i])@.len() == dim,
        forall|i: int, j: int|
            0 <= i < batch_size && 0 <= j < dim ==> (#[trigger] batch@[i]@[j]) == 0u64,
{
    let mut batch: Vec<Vec<u64>> = Vec::new();
    let mut i: usize = 0;
    while i < batch_size
        invariant
            i <= batch_size,
            batch@.len() == i,
            forall|t: int| 0 <= t < i ==> (#[trigger] batch@[t])@.len() == dim,
            forall|t: int, j: int|
                0 <= t < i && 0 <= j < dim ==> (#[trigger] batch@[t]@[j]) == 0u64,
        decreases batch_size - i,
    {
        let mut row: Vec<u64> = Vec::new();
        let mut j: usize = 0;
        while j < dim
            invariant
                j <= dim,
                row@.len() == j,
                forall|t: int| 0 <= t < j ==> (#[trigger] row@[t]) == 0u64,
            decreases dim - j,
        {
            row.push(0u64);
            j = j + 1;
        }
        batch.push(row);
        i = i + 1;
    }
    batch
}

} // verus!
