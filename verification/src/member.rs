//! Member records and the audit events that mutations emit.

use vstd::prelude::*;

verus! {

/// One registered family participant.
///
/// An identity is carried as its textual address; `address` doubles as
/// the record's key inside the registry. The spending limit is strictly
/// positive for every stored member, and `name` and `role` are never
/// empty there.
#[derive(Clone, Debug)]
pub struct FamilyMember {
    pub address: String,
    pub name: String,
    pub spending_limit: i128,
    pub role: String,
}

/// The mathematical image of a [`FamilyMember`]: its strings as
/// character sequences and its limit as an unbounded integer.
#[verifier::ext_equal]
pub struct MemberView {
    pub address: Seq<char>,
    pub name: Seq<char>,
    pub spending_limit: int,
    pub role: Seq<char>,
}

impl View for FamilyMember {
    type V = MemberView;

    open spec fn view(&self) -> MemberView {
        MemberView {
            address: self.address@,
            name: self.name@,
            spending_limit: self.spending_limit as int,
            role: self.role@,
        }
    }
}

impl FamilyMember {
    /// What the registry demands of every stored record.
    pub open spec fn valid(self) -> bool {
        self@.valid()
    }

    /// A field-for-field copy of the record.
    pub fn duplicate(&self) -> (r: FamilyMember)
        ensures
            r@ == self@,
    {
        FamilyMember {
            address: self.address.clone(),
            name: self.name.clone(),
            spending_limit: self.spending_limit,
            role: self.role.clone(),
        }
    }
}

impl MemberView {
    /// A positive limit and non-empty labels.
    pub open spec fn valid(self) -> bool {
        &&& self.spending_limit > 0
        &&& self.name.len() > 0
        &&& self.role.len() > 0
    }
}

/// The kind of audit notification a successful mutation produces.
#[derive(Clone, Copy, Debug, PartialEq, Eq, Structural)]
pub enum FamilyWalletEvent {
    /// `add_member` stored an identity it had not seen before.
    MemberAdded,
    /// `add_member` overwrote the record of an existing identity.
    MemberUpdated,
    /// `update_spending_limit` changed an existing member's limit.
    SpendingLimitUpdated,
}

/// One audit notification: its kind plus the affected identity.
///
/// The registry only appends these to its outgoing log; delivering them
/// to an external sink is the embedding host's job.
#[derive(Clone, Debug)]
pub struct AuditEvent {
    pub kind: FamilyWalletEvent,
    pub address: String,
}

/// The mathematical image of an [`AuditEvent`].
#[verifier::ext_equal]
pub struct EventView {
    pub kind: FamilyWalletEvent,
    pub address: Seq<char>,
}

impl View for AuditEvent {
    type V = EventView;

    open spec fn view(&self) -> EventView {
        EventView { kind: self.kind, address: self.address@ }
    }
}

} // verus!
