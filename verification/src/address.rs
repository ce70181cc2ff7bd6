//! Identities on the ledger and exact comparison of registry keys.

use vstd::prelude::*;

verus! {

/// A ledger identity: a party, an asset type, or a derived authority.
#[derive(Clone, Copy, Debug, PartialEq, Eq)]
pub struct Address {
    pub bytes: [u8; 32],
}

impl View for Address {
    type V = Seq<u8>;

    open spec fn view(&self) -> Seq<u8> {
        self.bytes@
    }
}

/// The identity with the given bytes.
pub open spec fn address_from(bytes: Seq<u8>) -> Address {
    choose|a: Address| a@ == bytes
}

/// An identity is recovered from its own bytes.
pub proof fn lemma_address_from_view(a: Address)
    ensures
        address_from(a@) == a,
{
    Address::lemma_view_injective(address_from(a@), a);
}

/// A type whose values can be compared exactly at run time.
///
/// `same` decides mathematical equality, so a registry keyed by such a type
/// behaves as a map over the values themselves.
pub trait Key: Copy {
    fn same(&self, other: &Self) -> (r: bool)
        ensures
            r == (*self == *other),
    ;
}

impl Address {
    /// Wraps thirty-two bytes as an identity.
    pub fn new(bytes: [u8; 32]) -> (a: Address)
        ensures
            a.bytes == bytes,
            a@ == bytes@,
    {
        Address { bytes }
    }

    /// Reads an identity from the thirty-two bytes of `source` that start
    /// at `offset`; nothing where `source` ends before them.
    pub fn from_slice(source: &[u8], offset: usize) -> (r: Option<Address>)
        ensures
            r is Some <==> offset + 32 <= source@.len(),
            r matches Some(a) ==> a@ == source@.subrange(offset as int, offset + 32) && a
                == address_from(source@.subrange(offset as int, offset + 32)),
    {
        let n: usize = source.len();
        if n < 32 || offset > n - 32 {
            return None;
        }
        let mut bytes: [u8; 32] = [0u8; 32];
        let mut i: usize = 0;
        while i < 32
            invariant
                i <= 32,
                n == source@.len(),
                offset + 32 <= n,
                forall|j: int| 0 <= j < i ==> bytes@[j] == source@[offset + j],
            decreases 32 - i,
        {
            bytes[i] = source[offset + i];
            i += 1;
        }
        let a = Address { bytes };
        proof {
            assert(a@ =~= source@.subrange(offset as int, offset + 32));
            lemma_address_from_view(a);
        }
        Some(a)
    }

    /// Two identities with the same bytes are the same identity.
    pub proof fn lemma_view_injective(a: Address, b: Address)
        requires
            a@ == b@,
        ensures
            a == b,
    {
        assert(a.bytes =~= b.bytes);
    }

    /// The bytes of the identity, in order.
    pub fn to_vec(&self) -> (v: Vec<u8>)
        ensures
            v@ == self@,
    {
        let mut v: Vec<u8> = Vec::new();
        let mut i: usize = 0;
        while i < 32
            invariant
                i <= 32,
                v@.len() == i,
                forall|j: int| 0 <= j < i ==> v@[j] == self.bytes@[j],
            decreases 32 - i,
        {
            v.push(self.bytes[i]);
            i += 1;
        }
        assert(v@ =~= self@);
        v
    }
}

impl Key for Address {
    fn same(&self, other: &Self) -> (r: bool) {
        let mut i: usize = 0;
        while i < 32
            invariant
                i <= 32,
                forall|j: int| 0 <= j < i ==> self.bytes@[j] == other.bytes@[j],
            decreases 32 - i,
        {
            if self.bytes[i] != other.bytes[i] {
                return false;
            }
            i += 1;
        }
        proof {
            assert(self.bytes =~= other.bytes);
        }
        true
    }
}

} // verus!
