//! The wallet registry: owner, ordered member records, outgoing audit log.

use vstd::prelude::*;

use crate::errors::WalletError;
use crate::member::{AuditEvent, EventView, FamilyMember, FamilyWalletEvent, MemberView};

verus! {

/// An owner-managed store of family member records.
///
/// The member vector is the registry's single source of truth: its order
/// is first-add order, so it plays both roles the persisted layout keeps
/// separate (the identity-keyed record map and the ordered identity
/// list). `events` is the outgoing audit log; the host that embeds the
/// registry drains it and publishes each entry, and also owns storage
/// persistence, lifetime renewal and caller-identity verification.
pub struct FamilyWallet {
    pub owner: Option<String>,
    pub members: Vec<FamilyMember>,
    pub events: Vec<AuditEvent>,
}

/// The mathematical image of a [`FamilyWallet`].
#[verifier::ext_equal]
pub struct WalletView {
    pub owner: Option<Seq<char>>,
    pub members: Seq<MemberView>,
    pub events: Seq<EventView>,
}

impl View for FamilyWallet {
    type V = WalletView;

    open spec fn view(&self) -> WalletView {
        WalletView {
            owner: match self.owner {
                Some(o) => Some(o@),
                None => None,
            },
            members: self.members@.map_values(|m: FamilyMember| m@),
            events: self.events@.map_values(|e: AuditEvent| e@),
        }
    }
}

impl WalletView {
    /// An owner has been stored, so mutating operations may proceed.
    pub open spec fn initialized(self) -> bool {
        self.owner is Some
    }

    /// Some stored member carries this identity.
    pub open spec fn contains_member(self, address: Seq<char>) -> bool {
        exists|i: int| 0 <= i < self.members.len() && self.members[i].address == address
    }

    /// The position at which this identity was first added.
    ///
    /// Meaningful only under `wf` and `contains_member`, which make the
    /// position unique.
    pub open spec fn index_of(self, address: Seq<char>) -> int {
        choose|i: int| 0 <= i < self.members.len() && self.members[i].address == address
    }

    /// The record stored under this identity.
    pub open spec fn member_of(self, address: Seq<char>) -> MemberView {
        self.members[self.index_of(address)]
    }

    /// The registry's invariant.
    ///
    /// Identities are unique, every stored record is valid (positive
    /// limit, non-empty labels), and no member exists before an owner
    /// does. Each record doubles as its own key, so key and record can
    /// never disagree.
    pub open spec fn wf(self) -> bool {
        &&& forall|i: int, j: int|
            0 <= i < j < self.members.len() ==> self.members[i].address != self.members[j].address
        &&& forall|i: int| 0 <= i < self.members.len() ==> (#[trigger] self.members[i]).valid()
        &&& self.members.len() > 0 ==> self.initialized()
    }
}

impl WalletView {
    /// What `initialize` returns: only authorization and the absence of
    /// a stored owner decide it.
    pub open spec fn initialize_result(self, auth_ok: bool, owner: Seq<char>) -> Result<
        bool,
        WalletError,
    > {
        if !auth_ok {
            Err(WalletError::Unauthorized)
        } else if self.initialized() {
            Err(WalletError::AlreadyInitialized)
        } else {
            Ok(true)
        }
    }

    /// The registry after `initialize`: on success the owner is stored
    /// and the member store starts empty; a fatal failure changes
    /// nothing.
    pub open spec fn initialize_state(self, auth_ok: bool, owner: Seq<char>) -> WalletView {
        if self.initialize_result(auth_ok, owner) is Ok {
            WalletView { owner: Some(owner), members: Seq::empty(), events: self.events }
        } else {
            self
        }
    }

    /// The admission gate shared by the mutating member operations:
    /// the caller must carry authorization evidence, the registry must
    /// be initialized, and the claimed owner must be the stored one.
    pub open spec fn mutate_gate(self, auth_ok: bool, claimed_owner: Seq<char>) -> Option<
        WalletError,
    > {
        if !auth_ok {
            Some(WalletError::Unauthorized)
        } else if !self.initialized() {
            Some(WalletError::NotInitialized)
        } else if self.owner->0 != claimed_owner {
            Some(WalletError::Unauthorized)
        } else {
            None
        }
    }

    /// What `add_member` returns: after the admission gate, the
    /// requested record must be valid; an upsert and a fresh insert
    /// report the same success marker.
    pub open spec fn add_member_result(
        self,
        auth_ok: bool,
        owner: Seq<char>,
        address: Seq<char>,
        name: Seq<char>,
        spending_limit: int,
        role: Seq<char>,
    ) -> Result<bool, WalletError> {
        let m = MemberView { address, name, spending_limit, role };
        match self.mutate_gate(auth_ok, owner) {
            Some(e) => Err(e),
            None => if m.valid() {
                Ok(true)
            } else {
                Err(WalletError::InvalidInput)
            },
        }
    }

    /// The registry after `add_member`: a known identity is overwritten
    /// in place and logged as updated, a new one is appended and logged
    /// as added; a fatal failure changes nothing.
    pub open spec fn add_member_state(
        self,
        auth_ok: bool,
        owner: Seq<char>,
        address: Seq<char>,
        name: Seq<char>,
        spending_limit: int,
        role: Seq<char>,
    ) -> WalletView {
        let m = MemberView { address, name, spending_limit, role };
        if self.add_member_result(auth_ok, owner, address, name, spending_limit, role) is Ok {
            if self.contains_member(address) {
                WalletView {
                    members: self.members.update(self.index_of(address), m),
                    events: self.events.push(
                        EventView { kind: FamilyWalletEvent::MemberUpdated, address },
                    ),
                    ..self
                }
            } else {
                WalletView {
                    members: self.members.push(m),
                    events: self.events.push(
                        EventView { kind: FamilyWalletEvent::MemberAdded, address },
                    ),
                    ..self
                }
            }
        } else {
            self
        }
    }

    /// What `update_spending_limit` returns: after the admission gate,
    /// a non-positive limit is fatal even for an absent identity; an
    /// absent identity is then reported as plain `false`.
    pub open spec fn update_limit_result(
        self,
        auth_ok: bool,
        owner: Seq<char>,
        address: Seq<char>,
        new_limit: int,
    ) -> Result<bool, WalletError> {
        match self.mutate_gate(auth_ok, owner) {
            Some(e) => Err(e),
            None => if new_limit <= 0 {
                Err(WalletError::InvalidInput)
            } else if !self.contains_member(address) {
                Ok(false)
            } else {
                Ok(true)
            },
        }
    }

    /// The registry after `update_spending_limit`: only a successful
    /// update touches it, replacing one member's limit and logging the
    /// change.
    pub open spec fn update_limit_state(
        self,
        auth_ok: bool,
        owner: Seq<char>,
        address: Seq<char>,
        new_limit: int,
    ) -> WalletView {
        if self.update_limit_result(auth_ok, owner, address, new_limit) == Ok::<
            bool,
            WalletError,
        >(true) {
            let i = self.index_of(address);
            let m = MemberView { spending_limit: new_limit, ..self.members[i] };
            WalletView {
                members: self.members.update(i, m),
                events: self.events.push(
                    EventView { kind: FamilyWalletEvent::SpendingLimitUpdated, address },
                ),
                ..self
            }
        } else {
            self
        }
    }

    /// What `get_member` returns.
    pub open spec fn lookup(self, address: Seq<char>) -> Option<MemberView> {
        if self.contains_member(address) {
            Some(self.member_of(address))
        } else {
            None
        }
    }

    /// What `check_spending_limit` returns: the identity is registered
    /// and the amount does not exceed its limit (the limit itself is
    /// still within it).
    pub open spec fn within_limit(self, address: Seq<char>, amount: int) -> bool {
        self.contains_member(address) && amount <= self.member_of(address).spending_limit
    }
}

/// In a well-formed registry each stored identity occupies exactly one
/// position, so `index_of` names the position of any witness.
pub proof fn lemma_index_of_unique(w: WalletView, address: Seq<char>, i: int)
    requires
        w.wf(),
        0 <= i < w.members.len(),
        w.members[i].address == address,
    ensures
        w.contains_member(address),
        w.index_of(address) == i,
{
    assert(w.contains_member(address));
    let c = w.index_of(address);
    assert(0 <= c < w.members.len() && w.members[c].address == address);
    if c < i {
        assert(w.members[c].address != w.members[i].address);
    } else if (i < c) {
        assert(w.members[i].address != w.members[c].address);
    }
}

/// `initialize` preserves the registry invariant.
pub proof fn lemma_initialize_wf(w: WalletView, auth_ok: bool, owner: Seq<char>)
    requires
        w.wf(),
    ensures
        w.initialize_state(auth_ok, owner).wf(),
{
}

/// `add_member` preserves the registry invariant: an upsert keeps the
/// identity in place, an insert appends an identity not yet present.
pub proof fn lemma_add_member_wf(
    w: WalletView,
    auth_ok: bool,
    owner: Seq<char>,
    address: Seq<char>,
    name: Seq<char>,
    spending_limit: int,
    role: Seq<char>,
)
    requires
        w.wf(),
    ensures
        w.add_member_state(auth_ok, owner, address, name, spending_limit, role).wf(),
{
    let w1 = w.add_member_state(auth_ok, owner, address, name, spending_limit, role);
    if w.add_member_result(auth_ok, owner, address, name, spending_limit, role) is Ok {
        if w.contains_member(address) {
            let i = w.index_of(address);
            assert(0 <= i < w.members.len() && w.members[i].address == address);
            assert forall|p: int, q: int|
                0 <= p < q < w1.members.len() implies w1.members[p].address
                != w1.members[q].address by {
                assert(w.members[p].address != w.members[q].address);
            }
        }
    }
}

/// `update_spending_limit` preserves the registry invariant: only one
/// member's limit changes, and only to a positive value.
pub proof fn lemma_update_limit_wf(
    w: WalletView,
    auth_ok: bool,
    owner: Seq<char>,
    address: Seq<char>,
    new_limit: int,
)
    requires
        w.wf(),
    ensures
        w.update_limit_state(auth_ok, owner, address, new_limit).wf(),
{
    let w1 = w.update_limit_state(auth_ok, owner, address, new_limit);
    if w.update_limit_result(auth_ok, owner, address, new_limit) == Ok::<bool, WalletError>(
        true,
    ) {
        let i = w.index_of(address);
        assert(0 <= i < w.members.len() && w.members[i].address == address);
        assert forall|p: int, q: int|
            0 <= p < q < w1.members.len() implies w1.members[p].address
            != w1.members[q].address by {
            assert(w.members[p].address != w.members[q].address);
        }
    }
}

impl FamilyWallet {
    /// A fresh, uninitialized registry: no owner, no members, no
    /// pending events.
    pub fn new() -> (w: FamilyWallet)
        ensures
            w@ == (WalletView {
                owner: None,
                members: Seq::<MemberView>::empty(),
                events: Seq::<EventView>::empty(),
            }),
            w@.wf(),
    {
        let w = FamilyWallet { owner: None, members: Vec::new(), events: Vec::new() };
        proof {
            assert(w@ =~= WalletView {
                owner: None,
                members: Seq::<MemberView>::empty(),
                events: Seq::<EventView>::empty(),
            });
        }
        w
    }

    /// Stores the owner of a registry that has none yet.
    ///
    /// `auth_ok` is the host's identity-verification verdict for the
    /// claimed owner. A second initialization is refused fatally; on
    /// success the member store starts out empty.
    pub fn initialize(&mut self, auth_ok: bool, owner: String) -> (r: Result<bool, WalletError>)
        requires
            old(self)@.wf(),
        ensures
            r == old(self)@.initialize_result(auth_ok, owner@),
            final(self)@ == old(self)@.initialize_state(auth_ok, owner@),
            final(self)@.wf(),
    {
        if !auth_ok {
            return Err(WalletError::Unauthorized);
        }
        if self.owner.is_some() {
            return Err(WalletError::AlreadyInitialized);
        }
        self.owner = Some(owner);
        self.members = Vec::new();
        proof {
            assert(self@ =~= old(self)@.initialize_state(auth_ok, owner@));
            lemma_initialize_wf(old(self)@, auth_ok, owner@);
        }
        Ok(true)
    }

    /// Stores or overwrites the record of one family member.
    ///
    /// Only the verified stored owner may call this, the limit must be
    /// positive and the labels non-empty; any violation is fatal and
    /// leaves the registry untouched. A new identity is appended to the
    /// enumeration order and logged as added; a known one keeps its
    /// position, has its fields replaced, and is logged as updated.
    pub fn add_member(
        &mut self,
        auth_ok: bool,
        owner: &String,
        address: String,
        name: String,
        spending_limit: i128,
        role: String,
    ) -> (r: Result<bool, WalletError>)
        requires
            old(self)@.wf(),
        ensures
            r == old(self)@.add_member_result(
                auth_ok,
                owner@,
                address@,
                name@,
                spending_limit as int,
                role@,
            ),
            final(self)@ == old(self)@.add_member_state(
                auth_ok,
                owner@,
                address@,
                name@,
                spending_limit as int,
                role@,
            ),
            final(self)@.wf(),
    {
        if !auth_ok {
            return Err(WalletError::Unauthorized);
        }
        let authorized = match &self.owner {
            Some(stored) => *stored == *owner,
            None => {
                return Err(WalletError::NotInitialized);
            },
        };
        if !authorized {
            return Err(WalletError::Unauthorized);
        }
        if spending_limit <= 0 || name.as_str().is_empty() || role.as_str().is_empty() {
            return Err(WalletError::InvalidInput);
        }
        let m = FamilyMember { address: address.clone(), name, spending_limit, role };
        match self.find_member(&address) {
            Some(i) => {
                proof {
                    lemma_index_of_unique(old(self)@, address@, i as int);
                }
                self.members[i] = m;
                self.events.push(AuditEvent { kind: FamilyWalletEvent::MemberUpdated, address });
            },
            None => {
                self.members.push(m);
                self.events.push(AuditEvent { kind: FamilyWalletEvent::MemberAdded, address });
            },
        }
        proof {
            assert(self@ =~= old(self)@.add_member_state(
                auth_ok,
                owner@,
                address@,
                name@,
                spending_limit as int,
                role@,
            ));
            lemma_add_member_wf(
                old(self)@,
                auth_ok,
                owner@,
                address@,
                name@,
                spending_limit as int,
                role@,
            );
        }
        Ok(true)
    }

    /// Replaces the spending limit of one existing member.
    ///
    /// Only the verified stored owner may call this, and a non-positive
    /// limit is fatal before the member is even looked for. An absent
    /// identity is reported as `Ok(false)` with nothing changed; on
    /// success the change is logged and `Ok(true)` returned.
    pub fn update_spending_limit(
        &mut self,
        auth_ok: bool,
        owner: &String,
        address: &String,
        new_limit: i128,
    ) -> (r: Result<bool, WalletError>)
        requires
            old(self)@.wf(),
        ensures
            r == old(self)@.update_limit_result(auth_ok, owner@, address@, new_limit as int),
            final(self)@ == old(self)@.update_limit_state(auth_ok, owner@, address@, new_limit as int),
            final(self)@.wf(),
    {
        if !auth_ok {
            return Err(WalletError::Unauthorized);
        }
        let authorized = match &self.owner {
            Some(stored) => *stored == *owner,
            None => {
                return Err(WalletError::NotInitialized);
            },
        };
        if !authorized {
            return Err(WalletError::Unauthorized);
        }
        if new_limit <= 0 {
            return Err(WalletError::InvalidInput);
        }
        match self.find_member(address) {
            Some(i) => {
                proof {
                    lemma_index_of_unique(old(self)@, address@, i as int);
                }
                self.members[i].spending_limit = new_limit;
                self.events.push(
                    AuditEvent {
                        kind: FamilyWalletEvent::SpendingLimitUpdated,
                        address: address.clone(),
                    },
                );
                proof {
                    assert(self@ =~= old(self)@.update_limit_state(
                        auth_ok,
                        owner@,
                        address@,
                        new_limit as int,
                    ));
                    lemma_update_limit_wf(old(self)@, auth_ok, owner@, address@, new_limit as int);
                }
                Ok(true)
            },
            None => Ok(false),
        }
    }

    /// The position of the identity's record, if any: the view-level
    /// witness that drives every keyed operation.
    fn find_member(&self, address: &String) -> (r: Option<usize>)
        ensures
            match r {
                Some(i) => {
                    &&& i < self@.members.len()
                    &&& self@.members[i as int].address == address@
                },
                None => !self@.contains_member(address@),
            },
    {
        let n = self.members.len();
        let mut i: usize = 0;
        while i < n
            invariant
                n == self@.members.len(),
                i <= n,
                forall|j: int| 0 <= j < i ==> self@.members[j].address != address@,
            decreases n - i,
        {
            if self.members[i].address == *address {
                return Some(i);
            }
            i += 1;
        }
        None
    }

    /// The stored record under this identity, copied out, or `None` for
    /// an unregistered identity. A pure read: no authorization, no
    /// state change.
    pub fn get_member(&self, address: &String) -> (r: Option<FamilyMember>)
        requires
            self@.wf(),
        ensures
            r matches Some(m) ==> self@.lookup(address@) == Some(m@),
            r is None ==> self@.lookup(address@) is None,
    {
        match self.find_member(address) {
            Some(i) => {
                proof {
                    lemma_index_of_unique(self@, address@, i as int);
                }
                Some(self.members[i].duplicate())
            },
            None => None,
        }
    }

    /// Every stored record, copied out in first-add order: one entry
    /// per identity, position untouched by later updates. A pure read;
    /// an empty registry yields an empty vector.
    pub fn get_all_members(&self) -> (r: Vec<FamilyMember>)
        ensures
            r@.map_values(|m: FamilyMember| m@) == self@.members,
    {
        let n = self.members.len();
        let mut result: Vec<FamilyMember> = Vec::new();
        let mut i: usize = 0;
        while i < n
            invariant
                n == self@.members.len(),
                i <= n,
                result@.len() == i,
                forall|j: int| 0 <= j < i ==> (#[trigger] result@[j])@ == self@.members[j],
            decreases n - i,
        {
            result.push(self.members[i].duplicate());
            i += 1;
        }
        proof {
            assert forall|j: int|
                0 <= j < result@.len() implies result@.map_values(|m: FamilyMember| m@)[j]
                == self@.members[j] by {
                assert(result@.map_values(|m: FamilyMember| m@)[j] == result@[j]@);
            }
            assert(result@.map_values(|m: FamilyMember| m@) =~= self@.members);
        }
        result
    }

    /// Whether this amount is admissible for this identity: the member
    /// exists and the amount is at most its limit, the limit itself
    /// included. A pure read; an unregistered identity always fails.
    pub fn check_spending_limit(&self, address: &String, amount: i128) -> (r: bool)
        requires
            self@.wf(),
        ensures
            r == self@.within_limit(address@, amount as int),
    {
        match self.find_member(address) {
            Some(i) => {
                proof {
                    lemma_index_of_unique(self@, address@, i as int);
                }
                amount <= self.members[i].spending_limit
            },
            None => false,
        }
    }
}

} // verus!
