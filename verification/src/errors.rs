//! The error taxonomy of the core operations.

use vstd::prelude::*;

verus! {

/// Why a classification or pruning operation failed.
///
/// `InvalidTimeZone` is fatal to every zone-dependent operation: no default
/// zone is ever substituted.  `LoadFailed` means no mutation was attempted;
/// `DeleteFailed` means the transaction rolled back and the store is
/// unchanged.  The two are distinct so an operator can tell whether anything
/// was at risk.
#[derive(Clone, Copy, Debug, PartialEq, Eq, Structural)]
pub enum HibiError {
    /// The named user does not exist.
    UserNotFound,
    /// The user has no stored zone string, or it does not match the
    /// `+HHMM` / `-HHMM` pattern.
    InvalidTimeZone,
    /// The store could not be read; nothing was mutated.
    LoadFailed,
    /// The store failed during the delete transaction, which rolled back;
    /// the store is unchanged.
    DeleteFailed,
}

} // verus!
