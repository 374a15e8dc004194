use vstd::prelude::*;

verus! {

/// The access guard: a caller may mutate the registry only if it is the owner.
pub fn is_owner(caller: &String, owner: &String) -> (r: bool)
    ensures
        r == (caller@ == owner@),
{
    *caller == *owner
}

} // verus!
