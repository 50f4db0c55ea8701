//! Failures of the catalogue and of the identifier query.

use vstd::prelude::*;

verus! {

/// `std::io::Error`, carried through as an opaque value: nothing is claimed
/// of what one holds.
#[verifier::external_type_specification]
#[verifier::external_body]
pub struct ExIoError(std::io::Error);

/// Why the wireless interfaces could not be listed.
#[derive(Debug)]
pub enum InterfaceListError {
    /// The statistics file could not be opened or read in full.
    Io { io: std::io::Error },
}

impl From<std::io::Error> for InterfaceListError {
    fn from(io: std::io::Error) -> (e: InterfaceListError) {
        InterfaceListError::Io { io }
    }
}

impl vstd::std_specs::convert::FromSpecImpl<std::io::Error> for InterfaceListError {
    open spec fn obeys_from_spec() -> bool {
        true
    }

    open spec fn from_spec(io: std::io::Error) -> InterfaceListError {
        InterfaceListError::Io { io }
    }
}

/// Why the identifier of the associated network could not be had.
#[derive(Debug)]
pub enum EssidFetchError {
    /// The control request, or the descriptor it is issued on, failed.
    Io { io: std::io::Error },
    /// A zero byte stands among the identifier's bytes, at index `nul`.
    NulError { nul: usize },
    /// The identifier's bytes are not UTF-8.
    Utf8Error,
    /// The reported length is zero, so that it leaves no room for the
    /// terminator, or exceeds the buffer.
    LengthError { length: u16 },
}

impl EssidFetchError {
    /// Whether the failure lies in what the kernel returned, rather than in
    /// reaching the kernel.
    pub open spec fn is_decode_failure(self) -> bool {
        !(self is Io)
    }
}

impl From<std::io::Error> for EssidFetchError {
    fn from(io: std::io::Error) -> (e: EssidFetchError) {
        EssidFetchError::Io { io }
    }
}

impl vstd::std_specs::convert::FromSpecImpl<std::io::Error> for EssidFetchError {
    open spec fn obeys_from_spec() -> bool {
        true
    }

    open spec fn from_spec(io: std::io::Error) -> EssidFetchError {
        EssidFetchError::Io { io }
    }
}

} // verus!
