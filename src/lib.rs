//! Typed, in-place views of network packet headers over byte buffers.
//!
//! A packet carries two markers in its type: its subtype (whether the type
//! and code fields are known) and the state of its checksum (whether the
//! checksum field is known to match the bytes).
use vstd::prelude::*;

pub mod checksum;
pub mod icmp;

verus! {

/// Subtype marker: the type and code fields are read from the bytes.
pub struct Unknown;

/// Checksum marker: the checksum field matches the bytes.
pub struct Valid;

/// Checksum marker: nothing is known of the checksum field.
pub struct Invalid;

/// A subtype marker.
pub trait Kind {
    /// The type byte that every packet of this subtype holds, if it is fixed.
    spec fn fixed_type() -> Option<u8>;

    /// Executable form of `fixed_type`.
    fn known_type() -> (r: Option<u8>)
        ensures
            r == Self::fixed_type(),
    ;
}

/// A checksum marker.
pub trait ChecksumState {
    /// Whether a packet with this marker is guaranteed to verify.
    spec fn guaranteed() -> bool;
}

impl Kind for Unknown {
    open spec fn fixed_type() -> Option<u8> {
        None
    }

    fn known_type() -> (r: Option<u8>) {
        None
    }
}

impl ChecksumState for Valid {
    open spec fn guaranteed() -> bool {
        true
    }
}

impl ChecksumState for Invalid {
    open spec fn guaranteed() -> bool {
        false
    }
}

} // verus!
