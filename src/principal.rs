//! Caller identities.

use vstd::prelude::*;
use vstd::slice::slice_to_vec;

verus! {

/// An identity, held as the bytes that name it.
#[derive(Debug)]
pub struct Principal {
    bytes: Vec<u8>,
}

impl View for Principal {
    type V = Seq<u8>;

    closed spec fn view(&self) -> Seq<u8> {
        self.bytes@
    }
}

/// The tag byte that the anonymous identity consists of.
pub const ANONYMOUS_TAG: u8 = 4;

impl Principal {
    /// An identity named by the given bytes.
    pub fn from_slice(bytes: &[u8]) -> (r: Principal)
        ensures
            r@ == bytes@,
    {
        Principal { bytes: slice_to_vec(bytes) }
    }

    /// The identity of a caller that did not authenticate.
    pub fn anonymous() -> (r: Principal)
        ensures
            r@ == seq![ANONYMOUS_TAG],
    {
        let mut bytes: Vec<u8> = Vec::new();
        bytes.push(ANONYMOUS_TAG);
        Principal { bytes }
    }

    /// Whether this is the identity of a caller that did not authenticate.
    pub fn is_anonymous(&self) -> (r: bool)
        ensures
            r == (self@ == seq![ANONYMOUS_TAG]),
    {
        if self.bytes.len() != 1 {
            proof {
                if self@ == seq![ANONYMOUS_TAG] {
                    assert(self@.len() == 1);
                }
            }
            return false;
        }
        let r = self.bytes[0] == ANONYMOUS_TAG;
        proof {
            if r {
                assert(self@ =~= seq![ANONYMOUS_TAG]);
            } else if self@ == seq![ANONYMOUS_TAG] {
                assert(self@[0] == ANONYMOUS_TAG);
            }
        }
        r
    }

    /// The bytes that name this identity.
    pub fn as_slice(&self) -> (r: &[u8])
        ensures
            r@ == self@,
    {
        self.bytes.as_slice()
    }

    /// Whether both values name the same identity.
    pub fn same_as(&self, other: &Principal) -> (r: bool)
        ensures
            r == (self@ == other@),
    {
        let n = self.bytes.len();
        if n != other.bytes.len() {
            return false;
        }
        let mut i: usize = 0;
        while i < n
            invariant
                n == self@.len(),
                n == other@.len(),
                0 <= i <= n,
                forall|j: int| 0 <= j < i ==> self@[j] == other@[j],
            decreases n - i,
        {
            if self.bytes[i] != other.bytes[i] {
                return false;
            }
            i = i + 1;
        }
        assert(self@ =~= other@);
        true
    }
}

impl Clone for Principal {
    fn clone(&self) -> (r: Self)
        ensures
            r@ == self@,
    {
        Principal { bytes: self.bytes.clone() }
    }
}

impl PartialEq for Principal {
    fn eq(&self, other: &Principal) -> (r: bool) {
        self.same_as(other)
    }
}

impl vstd::std_specs::cmp::PartialEqSpecImpl for Principal {
    open spec fn obeys_eq_spec() -> bool {
        true
    }

    open spec fn eq_spec(&self, other: &Principal) -> bool {
        self@ == other@
    }
}

impl Eq for Principal {
}

/// Whether the list holds an identity with the given bytes.
pub open spec fn holds_principal(list: Seq<Principal>, p: Seq<u8>) -> bool {
    exists|i: int| 0 <= i < list.len() && #[trigger] list[i]@ == p
}

/// Whether `list` holds `p`, compared by the bytes that name them.
pub fn contains_principal(list: &Vec<Principal>, p: &Principal) -> (r: bool)
    ensures
        r == holds_principal(list@, p@),
{
    let mut i: usize = 0;
    while i < list.len()
        invariant
            0 <= i <= list@.len(),
            forall|j: int| 0 <= j < i ==> #[trigger] list@[j]@ != p@,
        decreases list@.len() - i,
    {
        if list[i].same_as(p) {
            return true;
        }
        i = i + 1;
    }
    false
}

} // verus!
