//! The fatal failure kinds a registry operation can report.

use vstd::prelude::*;

verus! {

/// Why a mutating operation aborted without touching the registry.
///
/// A missing member is never fatal: operations report it through their
/// ordinary return value (`None`, or `Ok(false)`), so callers can always
/// tell "not found" apart from a rejected call.
#[derive(Clone, Copy, Debug, PartialEq, Eq, Structural)]
pub enum WalletError {
    /// A second `initialize` on a registry that already has an owner.
    AlreadyInitialized,
    /// A mutating call before `initialize` stored an owner.
    NotInitialized,
    /// The caller failed identity verification, or is not the stored owner.
    Unauthorized,
    /// A non-positive spending limit, or an empty name or role.
    InvalidInput,
}

} // verus!
