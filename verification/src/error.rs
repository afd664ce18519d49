//! Failure kinds reported by ledger operations.

use vstd::prelude::*;

verus! {

/// Why a ledger operation was refused. A refused operation changes nothing.
#[derive(Debug, Clone, Copy, PartialEq, Eq, Structural)]
pub enum LedgerError {
    /// A referenced user, item or loan does not exist.
    NotFound,
    /// A unique key (an identifier or a national ID) is already taken.
    Conflict,
    /// A reservation would drive an item's available stock below zero.
    InsufficientStock,
    /// The loan's current status does not permit the requested change.
    InvalidTransition,
    /// A stock edit would leave total and available stock inconsistent.
    InvalidState,
}

/// The answer of an operation with the record in it taken by its view.
pub open spec fn result_view<T: View>(r: Result<T, LedgerError>) -> Result<T::V, LedgerError> {
    match r {
        Ok(v) => Ok(v@),
        Err(e) => Err(e),
    }
}

impl LedgerError {
    /// The text of each failure kind.
    pub open spec fn text(self) -> Seq<char> {
        match self {
            LedgerError::NotFound => "not found"@,
            LedgerError::Conflict => "conflict"@,
            LedgerError::InsufficientStock => "insufficient stock"@,
            LedgerError::InvalidTransition => "invalid transition"@,
            LedgerError::InvalidState => "invalid state"@,
        }
    }

    /// A short human-readable name for the failure.
    pub fn as_str(&self) -> (s: &'static str)
        ensures
            s@ == self.text(),
    {
        match self {
            LedgerError::NotFound => "not found",
            LedgerError::Conflict => "conflict",
            LedgerError::InsufficientStock => "insufficient stock",
            LedgerError::InvalidTransition => "invalid transition",
            LedgerError::InvalidState => "invalid state",
        }
    }
}

} // verus!
