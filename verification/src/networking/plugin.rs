//! Settings of the networking plugin.

use vstd::prelude::*;

verus! {

/// A pre-shared secret that controls who may join a session: when one is
/// configured, a joining node must present it to receive the state.
#[derive(Clone, PartialEq, Eq, Debug)]
pub struct SessionSecret(Vec<u8>);

impl SessionSecret {
    /// A secret of the given bytes.
    pub fn new(secret: Vec<u8>) -> (s: Self)
        ensures
            s.bytes() == secret@,
    {
        SessionSecret(secret)
    }

    /// The secret's bytes.
    pub closed spec fn bytes(&self) -> Seq<u8> {
        self.0@
    }

    /// The secret as bytes.
    pub fn as_bytes(&self) -> (b: &[u8])
        ensures
            b@ == self.bytes(),
    {
        self.0.as_slice()
    }
}

} // verus!
