//! Serialization traits: a value with a canonical wire-format byte
//! string can emit it under either of two names.

use vstd::prelude::*;

verus! {

/// A value with a canonical wire-format byte string.
pub trait Serializable {
    /// The wire bytes that `serialize` produces.
    spec fn serialized(&self) -> Seq<u8>;

    /// Emits the wire-format bytes of the value.
    fn serialize(&self) -> (r: Vec<u8>)
        ensures
            r@ == self.serialized(),
    ;
}

/// Byte serialization under a second name, producing the same bytes
/// as [`Serializable::serialize`].
pub trait ToBytes: Serializable {
    /// Emits the wire-format bytes of the value.
    fn to_bytes(&self) -> (r: Vec<u8>)
        ensures
            r@ == self.serialized(),
    ;
}

} // verus!
