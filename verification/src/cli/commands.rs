//! The decisions of the command executor that need no output.

use crate::cli::parser::views;
use vstd::prelude::*;

verus! {

/// The position of the first requested signal name that is not among the
/// available names; `None` when all are available.
pub fn first_unknown_signal(requested: &Vec<String>, available: &Vec<String>) -> (r: Option<usize>)
    ensures
        match r {
            Some(i) => i < requested.len() && !views(available@).contains(requested@[i as int]@)
                && forall|k: int|
                0 <= k < i ==> views(available@).contains(#[trigger] requested@[k]@),
            None => forall|k: int|
                0 <= k < requested.len() ==> views(available@).contains(#[trigger] requested@[k]@),
        },
{
    let mut i: usize = 0;
    while i < requested.len()
        invariant
            i <= requested.len(),
            forall|k: int| 0 <= k < i ==> views(available@).contains(#[trigger] requested@[k]@),
        decreases requested.len() - i,
    {
        let mut found = false;
        let mut j: usize = 0;
        while j < available.len()
            invariant
                i < requested.len(),
                j <= available.len(),
                found ==> views(available@).contains(requested@[i as int]@),
                !found ==> forall|k: int|
                    0 <= k < j ==> available@[k]@ != requested@[i as int]@,
            decreases available.len() - j,
        {
            if available[j] == requested[i] {
                assert(views(available@)[j as int] == requested@[i as int]@);
                found = true;
            }
            j += 1;
        }
        if !found {
            assert forall|k: int| 0 <= k < views(available@).len() implies #[trigger] views(
                available@,
            )[k] != requested@[i as int]@ by {}
            return Some(i);
        }
        i += 1;
    }
    None
}

/// The position of the first requested signal that has no logged data,
/// given the number of logged samples of each requested signal in order;
/// `None` when every one has data.
pub fn first_signal_without_data(sample_counts: &Vec<usize>) -> (r: Option<usize>)
    ensures
        match r {
            Some(i) => i < sample_counts.len() && sample_counts@[i as int] == 0 && forall|k: int|
                0 <= k < i ==> #[trigger] sample_counts@[k] > 0,
            None => forall|k: int| 0 <= k < sample_counts.len() ==> #[trigger] sample_counts@[k] > 0,
        },
{
    let mut i: usize = 0;
    while i < sample_counts.len()
        invariant
            i <= sample_counts.len(),
            forall|k: int| 0 <= k < i ==> #[trigger] sample_counts@[k] > 0,
        decreases sample_counts.len() - i,
    {
        if sample_counts[i] == 0 {
            return Some(i);
        }
        i += 1;
    }
    None
}

} // verus!
