//! An owner-managed registry of family members, each with a positive
//! spending limit that later payment flows consult through a limit check.
//!
//! The registry itself is pure state plus decision logic: persistence,
//! caller-identity verification and event delivery belong to the host
//! that embeds it. Every operation takes the registry state explicitly
//! and reports fatal failures as [`errors::WalletError`] values.

pub mod errors;
pub mod laws;
pub mod member;
pub mod registry;
