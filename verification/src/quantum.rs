//! Naming of the branches of a Ψ-branching simulation.
use vstd::prelude::*;
use crate::text::{decimal, push_decimal};

verus! {

/// The identifier of branch `i`: `branch_{i}`.
pub open spec fn branch_id_text(i: nat) -> Seq<char> {
    "branch_"@ + decimal(i)
}

/// The identifier of branch `i`.
pub fn branch_id(i: usize) -> (id: String)
    ensures
        id@ == branch_id_text(i as nat),
{
    let mut id = String::from_str("branch_");
    push_decimal(&mut id, i as u64);
    id
}

/// The identifiers of the branches of a simulation with `branches` branches,
/// in order: `branch_0`, `branch_1`, and so on.
pub fn psi_branch_ids(branches: usize) -> (ids: Vec<String>)
    ensures
        ids@.len() == branches,
        forall|i: int| 0 <= i < branches ==> #[trigger] ids@[i]@ == branch_id_text(i as nat),
{
    let mut ids: Vec<String> = Vec::new();
    let mut i: usize = 0;
    while i < branches
        invariant
            i <= branches,
            ids@.len() == i,
            forall|j: int| 0 <= j < i ==> #[trigger] ids@[j]@ == branch_id_text(j as nat),
        decreases branches - i,
    {
        ids.push(branch_id(i));
        i = i + 1;
    }
    ids
}

} // verus!
