//! Participant and contract addresses.

use vstd::prelude::*;
use vstd::std_specs::cmp::PartialEqSpec;

verus! {

/// A participant, in the two forms the chain knows it by: the readable form
/// that messages are addressed to, and the canonical bytes that records are
/// keyed by. Both are supplied by the caller.
#[derive(Debug, PartialEq, Eq)]
pub struct Address {
    pub human: String,
    pub canonical: Vec<u8>,
}

impl Clone for Address {
    fn clone(&self) -> (copy: Self)
        ensures
            copy.human@ == self.human@,
            copy.canonical@ == self.canonical@,
    {
        Address { human: self.human.clone(), canonical: self.canonical.clone() }
    }
}

/// Whether two byte strings hold the same bytes.
pub fn same_bytes(a: &Vec<u8>, b: &Vec<u8>) -> (same: bool)
    ensures
        same == (a@ == b@),
{
    let same = *a == *b;
    proof {
        if same {
            assert forall|i: int| 0 <= i < a@.len() implies a@[i] == b@[i] by {
                assert(a[i].eq_spec(&b[i]));
            }
            assert(a@ =~= b@);
        }
    }
    same
}

} // verus!
