//! An identifier held as its sixteen bytes, for storage formats that keep
//! raw bytes.

use vstd::prelude::*;

use crate::ids::{be_value, u128_from_be_bytes, u128_to_be_bytes};

verus! {

/// A UUID held as its sixteen big-endian bytes.
#[derive(Clone, Copy, PartialEq, Eq, Debug, Hash)]
pub struct RkyvUuid(pub [u8; 16]);

impl RkyvUuid {
    /// The bytes of an identifier.
    pub fn new(uuid: u128) -> (r: Self)
        ensures
            be_value(r.0@) == uuid,
    {
        RkyvUuid(u128_to_be_bytes(uuid))
    }

    /// The identifier the bytes hold.
    pub fn as_uuid(&self) -> (u: u128)
        ensures
            u == be_value(self.0@),
    {
        u128_from_be_bytes(&self.0)
    }

    /// The identifier the bytes hold.
    pub fn into_uuid(self) -> (u: u128)
        ensures
            u == be_value(self.0@),
    {
        u128_from_be_bytes(&self.0)
    }
}

/// Two byte strings of one length with the same big-endian value are the
/// same bytes: an identifier has exactly one byte form, so reading the
/// bytes back and writing them again gives the same bytes.
pub proof fn lemma_be_value_injective(a: Seq<u8>, b: Seq<u8>)
    requires
        a.len() == b.len(),
        be_value(a) == be_value(b),
    ensures
        a == b,
    decreases a.len(),
{
    if a.len() > 0 {
        let x = be_value(a.drop_last());
        let y = be_value(b.drop_last());
        let l1 = a.last() as int;
        let l2 = b.last() as int;
        assert(x == y && l1 == l2) by (nonlinear_arith)
            requires
                x * 256 + l1 == y * 256 + l2,
                0 <= l1 < 256,
                0 <= l2 < 256,
                x >= 0,
                y >= 0,
        ;
        lemma_be_value_injective(a.drop_last(), b.drop_last());
        assert(a =~= a.drop_last().push(a.last()));
        assert(b =~= b.drop_last().push(b.last()));
    } else {
        assert(a =~= b);
    }
}

} // verus!
