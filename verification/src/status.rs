//! Failures that the vault reports to the host, and their status words.

use vstd::prelude::*;

verus! {

/// Status word of a successful exchange.
pub const SW_OK: u16 = 0x9000;

/// Status word for an instruction that is not accepted where it arrives.
pub const SW_UNKNOWN: u16 = 0x6d00;

/// Status word that ends an import session on a foreign instruction.
pub const SW_BAD_CLA: u16 = 0x6e00;

/// Why a request was not carried out.
#[derive(Clone, Copy, Debug, PartialEq, Eq, Structural)]
pub enum Error {
    /// The user declined, or did not confirm.
    NoConsent,
    /// The store holds as many entries as it can.
    StorageFull,
    /// No entry has the name or the index asked for.
    EntryNotFound,
    /// The authentication tag of an imported entry does not match.
    DecryptFailed,
}

impl Error {
    /// The status word of each failure.
    pub open spec fn spec_status_word(self) -> u16 {
        match self {
            Error::NoConsent => 0x69f0,
            Error::StorageFull => 0x9210,
            Error::EntryNotFound => 0x6a88,
            Error::DecryptFailed => 0x9d60,
        }
    }

    /// The status word under which the failure is reported to the host.
    pub fn status_word(self) -> (sw: u16)
        ensures
            sw == self.spec_status_word(),
            sw != SW_OK,
    {
        match self {
            Error::NoConsent => 0x69f0,
            Error::StorageFull => 0x9210,
            Error::EntryNotFound => 0x6a88,
            Error::DecryptFailed => 0x9d60,
        }
    }
}

} // verus!
