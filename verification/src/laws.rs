//! Registry-wide laws, proved once over the mathematical model.
//!
//! Every operation's contract ties it to the transition functions on
//! [`WalletView`], so each law below holds of the executable registry
//! for every input it speaks of.

use vstd::prelude::*;

use crate::errors::WalletError;
use crate::member::MemberView;
use crate::registry::{lemma_add_member_wf, lemma_index_of_unique, WalletView};

verus! {

/// Initializing an ownerless registry with authorization always
/// succeeds; once an owner is stored, any further authorized
/// initialization fails fatally with `AlreadyInitialized` and changes
/// nothing.
pub proof fn lemma_initialize_once(
    w: WalletView,
    owner1: Seq<char>,
    owner2: Seq<char>,
)
    requires
        !w.initialized(),
    ensures
        w.initialize_result(true, owner1) == Ok::<bool, WalletError>(true),
        w.initialize_state(true, owner1).initialize_result(true, owner2) == Err::<
            bool,
            WalletError,
        >(WalletError::AlreadyInitialized),
        w.initialize_state(true, owner1).initialize_state(true, owner2) == w.initialize_state(
            true,
            owner1,
        ),
{
}

/// Storing a valid member record and then looking the same identity up
/// returns exactly the stored fields.
pub proof fn lemma_add_then_lookup(w: WalletView, owner: Seq<char>, m: MemberView)
    requires
        w.wf(),
        w.owner == Some(owner),
        m.valid(),
    ensures
        w.add_member_result(true, owner, m.address, m.name, m.spending_limit, m.role) == Ok::<
            bool,
            WalletError,
        >(true),
        w.add_member_state(true, owner, m.address, m.name, m.spending_limit, m.role).lookup(
            m.address,
        ) == Some(m),
{
    let w1 = w.add_member_state(true, owner, m.address, m.name, m.spending_limit, m.role);
    lemma_add_member_wf(w, true, owner, m.address, m.name, m.spending_limit, m.role);
    if w.contains_member(m.address) {
        let i = w.index_of(m.address);
        assert(0 <= i < w.members.len() && w.members[i].address == m.address);
        assert(w1.members[i] == m);
        lemma_index_of_unique(w1, m.address, i);
    } else {
        let i = w.members.len() as int;
        assert(w1.members[i] == m);
        lemma_index_of_unique(w1, m.address, i);
    }
}

/// Adding the same identity twice keeps exactly one entry for it: the
/// member count does not grow again, the surviving record carries the
/// second call's fields, and it sits at the position the first call
/// gave it.
pub proof fn lemma_add_twice_same_identity(
    w: WalletView,
    owner: Seq<char>,
    m1: MemberView,
    m2: MemberView,
)
    requires
        w.wf(),
        w.owner == Some(owner),
        m1.valid(),
        m2.valid(),
        m2.address == m1.address,
    ensures
        ({
            let w1 = w.add_member_state(true, owner, m1.address, m1.name, m1.spending_limit, m1.role);
            let w2 = w1.add_member_state(true, owner, m2.address, m2.name, m2.spending_limit, m2.role);
            &&& w2.members.len() == w1.members.len()
            &&& w2.index_of(m2.address) == w1.index_of(m1.address)
            &&& w2.member_of(m2.address) == m2
            &&& forall|k: int|
                0 <= k < w2.members.len() && w2.members[k].address == m2.address ==> k
                    == w2.index_of(m2.address)
        }),
{
    let w1 = w.add_member_state(true, owner, m1.address, m1.name, m1.spending_limit, m1.role);
    let w2 = w1.add_member_state(true, owner, m2.address, m2.name, m2.spending_limit, m2.role);
    lemma_add_member_wf(w, true, owner, m1.address, m1.name, m1.spending_limit, m1.role);
    lemma_add_member_wf(w1, true, owner, m2.address, m2.name, m2.spending_limit, m2.role);
    let i1 = if w.contains_member(m1.address) {
        w.index_of(m1.address)
    } else {
        w.members.len() as int
    };
    if w.contains_member(m1.address) {
        assert(0 <= i1 < w.members.len() && w.members[i1].address == m1.address);
    }
    assert(w1.members[i1] == m1);
    lemma_index_of_unique(w1, m1.address, i1);
    assert(w1.contains_member(m2.address));
    assert(w2.members[i1] == m2);
    lemma_index_of_unique(w2, m2.address, i1);
    assert forall|k: int|
        0 <= k < w2.members.len() && w2.members[k].address == m2.address implies k == w2.index_of(
        m2.address,
    ) by {
        lemma_index_of_unique(w2, m2.address, k);
    }
}

/// A non-positive limit is rejected fatally as `InvalidInput` by both
/// mutating member operations, whether or not the identity is
/// registered, and the registry is left untouched.
pub proof fn lemma_nonpositive_limit_rejected(
    w: WalletView,
    owner: Seq<char>,
    address: Seq<char>,
    name: Seq<char>,
    limit: int,
    role: Seq<char>,
)
    requires
        w.owner == Some(owner),
        limit <= 0,
    ensures
        w.add_member_result(true, owner, address, name, limit, role) == Err::<bool, WalletError>(
            WalletError::InvalidInput,
        ),
        w.add_member_state(true, owner, address, name, limit, role) == w,
        w.update_limit_result(true, owner, address, limit) == Err::<bool, WalletError>(
            WalletError::InvalidInput,
        ),
        w.update_limit_state(true, owner, address, limit) == w,
{
}

/// Updating the limit of an unregistered identity reports plain
/// `false` and leaves the registry — its member count included —
/// unchanged.
pub proof fn lemma_update_absent_unchanged(
    w: WalletView,
    owner: Seq<char>,
    address: Seq<char>,
    limit: int,
)
    requires
        w.owner == Some(owner),
        limit > 0,
        !w.contains_member(address),
    ensures
        w.update_limit_result(true, owner, address, limit) == Ok::<bool, WalletError>(false),
        w.update_limit_state(true, owner, address, limit) == w,
        w.update_limit_state(true, owner, address, limit).members.len() == w.members.len(),
{
}

/// A caller who is not the stored owner is refused with `Unauthorized`
/// by every mutating operation — even with passing identity
/// verification — and nothing changes.
pub proof fn lemma_non_owner_rejected(
    w: WalletView,
    caller: Seq<char>,
    address: Seq<char>,
    name: Seq<char>,
    limit: int,
    role: Seq<char>,
)
    requires
        w.initialized(),
        w.owner != Some(caller),
    ensures
        w.add_member_result(true, caller, address, name, limit, role) == Err::<bool, WalletError>(
            WalletError::Unauthorized,
        ),
        w.add_member_state(true, caller, address, name, limit, role) == w,
        w.update_limit_result(true, caller, address, limit) == Err::<bool, WalletError>(
            WalletError::Unauthorized,
        ),
        w.update_limit_state(true, caller, address, limit) == w,
{
}

/// A freshly initialized registry enumerates no members: its member
/// sequence is empty, not an error.
pub proof fn lemma_fresh_registry_empty(w: WalletView, owner: Seq<char>)
    requires
        !w.initialized(),
    ensures
        w.initialize_state(true, owner).members == Seq::<MemberView>::empty(),
{
    assert(w.initialize_state(true, owner).members =~= Seq::<MemberView>::empty());
}

} // verus!
