use vstd::prelude::*;

verus! {

/// An identity handle: an account key or a contract hash, 32 bytes each.
#[derive(Clone, Copy, Debug)]
pub struct Address {
    pub is_contract: bool,
    pub key: [u8; 32],
}

impl Address {
    /// The account whose public key is `key`.
    pub fn account(key: [u8; 32]) -> (r: Address)
        ensures
            r == (Address { is_contract: false, key }),
    {
        Address { is_contract: false, key }
    }

    /// The contract whose hash is `key`.
    pub fn contract(key: [u8; 32]) -> (r: Address)
        ensures
            r == (Address { is_contract: true, key }),
    {
        Address { is_contract: true, key }
    }

    /// Whether two addresses name the same identity.
    pub fn same(&self, other: &Address) -> (r: bool)
        ensures
            r == (*self == *other),
    {
        if self.is_contract != other.is_contract {
            return false;
        }
        let mut i: usize = 0;
        while i < 32
            invariant
                i <= 32,
                forall|j: int| 0 <= j < i ==> self.key[j] == other.key[j],
            decreases 32 - i,
        {
            if self.key[i] != other.key[i] {
                return false;
            }
            i = i + 1;
        }
        assert(self.key =~= other.key);
        true
    }
}

impl PartialEq for Address {
    fn eq(&self, other: &Address) -> (r: bool) {
        self.same(other)
    }
}

impl vstd::std_specs::cmp::PartialEqSpecImpl for Address {
    open spec fn obeys_eq_spec() -> bool {
        true
    }

    open spec fn eq_spec(&self, other: &Address) -> bool {
        *self == *other
    }
}

impl Eq for Address {}

} // verus!
