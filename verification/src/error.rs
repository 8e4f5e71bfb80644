//! The closed set of failure kinds of the escrow protocol with their stable
//! numeric codes, and the ways in which reading a stored record can fail.

use vstd::prelude::*;

verus! {

/// A failure of the escrow protocol.
///
/// Each kind is reported to the platform as a custom error code; the codes
/// are part of the external interface and are fixed by [`EscrowError::code`],
/// not by the order of the variants below.
#[derive(Debug, Clone, Copy, PartialEq, Eq, Structural)]
pub enum EscrowError {
    /// The instruction payload could not be interpreted.
    InvalidInstruction,
    /// The account does not hold the balance that exempts it from rent.
    NotRentExempt,
    /// The amount supplied by the counterparty differs from the expected one.
    ExpectedAmountMismatch,
    /// A combination of amounts does not fit the numeric range.
    AmountOverflow,
}

impl EscrowError {
    /// The custom error code of this kind, as a mathematical value.
    pub open spec fn spec_code(self) -> nat {
        match self {
            EscrowError::InvalidInstruction => 0,
            EscrowError::NotRentExempt => 1,
            EscrowError::ExpectedAmountMismatch => 2,
            EscrowError::AmountOverflow => 3,
        }
    }

    /// Returns the custom error code under which this kind is reported.
    pub fn code(self) -> (code: u32)
        ensures
            code == self.spec_code(),
    {
        match self {
            EscrowError::InvalidInstruction => 0,
            EscrowError::NotRentExempt => 1,
            EscrowError::ExpectedAmountMismatch => 2,
            EscrowError::AmountOverflow => 3,
        }
    }
}

impl From<EscrowError> for u32 {
    /// Converts a failure kind into the custom error code that reports it.
    fn from(error: EscrowError) -> (code: u32) {
        error.code()
    }
}

impl vstd::std_specs::convert::FromSpecImpl<EscrowError> for u32 {
    open spec fn obeys_from_spec() -> bool {
        true
    }

    open spec fn from_spec(error: EscrowError) -> u32 {
        error.spec_code() as u32
    }
}

/// Why a buffer could not be read as an escrow record.
#[derive(Debug, Clone, Copy, PartialEq, Eq, Structural)]
pub enum UnpackError {
    /// The buffer ends before the last byte of the record.
    BufferTooShort,
    /// The initialization flag is neither `0` nor `1`.
    InvalidAccountData,
}

} // verus!
