use vstd::prelude::*;

verus! {

/// Clips `value` to the closed interval `[lower, upper]`: the result is
/// `max(min(value, upper), lower)`, so when `lower <= upper` it is the
/// nearest point of the interval.
pub fn clip(value: usize, lower: usize, upper: usize) -> (r: usize)
    ensures
        r == ({
            let m = if value <= upper { value } else { upper };
            if m >= lower { m } else { lower }
        }),
{
    let m = if value <= upper { value } else { upper };
    if m >= lower { m } else { lower }
}

} // verus!
