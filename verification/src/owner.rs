use vstd::prelude::*;

verus! {

/// An opaque caller identity, as resolved by the hosting environment:
/// the raw bytes of the calling principal. The store never inspects an
/// identity beyond comparing it for equality and tagging tasks with it.
pub struct Owner {
    bytes: Vec<u8>,
}

impl View for Owner {
    type V = Seq<u8>;

    closed spec fn view(&self) -> Seq<u8> {
        self.bytes@
    }
}

impl Owner {
    /// Wraps the raw identity bytes handed over by the hosting environment.
    pub fn new(bytes: Vec<u8>) -> (r: Owner)
        ensures
            r@ == bytes@,
    {
        Owner { bytes }
    }

    /// The raw identity bytes, for handing the identity back to the
    /// hosting environment.
    pub fn bytes(&self) -> (r: &Vec<u8>)
        ensures
            r@ == self@,
    {
        &self.bytes
    }
}

impl Clone for Owner {
    fn clone(&self) -> (r: Owner)
        ensures
            r@ == self@,
    {
        let bytes = self.bytes.clone();
        proof {
            assert(bytes@ =~= self.bytes@);
        }
        Owner { bytes }
    }
}

impl PartialEq for Owner {
    fn eq(&self, other: &Owner) -> (r: bool) {
        if self.bytes.len() != other.bytes.len() {
            return false;
        }
        let mut i: usize = 0;
        while i < self.bytes.len()
            invariant
                i <= self.bytes.len(),
                self.bytes.len() == other.bytes.len(),
                forall|k: int| 0 <= k < i ==> self.bytes@[k] == other.bytes@[k],
            decreases self.bytes.len() - i,
        {
            if self.bytes[i] != other.bytes[i] {
                return false;
            }
            i = i + 1;
        }
        proof {
            assert(self.bytes@ =~= other.bytes@);
        }
        true
    }
}

impl vstd::std_specs::cmp::PartialEqSpecImpl for Owner {
    open spec fn obeys_eq_spec() -> bool {
        true
    }

    open spec fn eq_spec(&self, other: &Owner) -> bool {
        self@ == other@
    }
}

} // verus!
