//! What holds of roles as a whole, over any number of grants and revocations.
//!
//! The functions of [`crate::rbac`] act on the slots they are given. A contract gives
//! them a slot for each role and account, one for each role's index, and one for the
//! admin counter. The laws here speak of one role with such slots, and then of all the
//! roles of a contract together.

use crate::account::Account;
use vstd::prelude::*;

verus! {

use crate::ledger::{Entry, Item, Key};
use crate::rbac::{
    all_accounts, count_at, grantable, granted, holds_count, holds_members, members_at, revocable,
    revocation, revoked, without, RbacError,
};

/// Where a contract keeps one role.
pub ghost struct RoleSlots {
    /// The slot that marks the role as held by an account.
    pub role: spec_fn(Account) -> Key,
    /// The slot of the admin counter.
    pub count: Key,
    /// The slot of the role's index.
    pub members: Key,
    /// Whether the role is `Admin`.
    pub is_admin: bool,
}

impl RoleSlots {
    /// Whether no slot serves two purposes.
    pub open spec fn separate(self) -> bool {
        &&& forall|a: Account, b: Account| #[trigger]
            (self.role)(a) == #[trigger] (self.role)(b) ==> a == b
        &&& forall|a: Account|
            (#[trigger] (self.role)(a)) != self.count && (self.role)(a) != self.members
        &&& self.count != self.members
    }

    /// Whether the account holds the role.
    pub open spec fn held_by(self, entries: Map<Key, Entry>, account: Account) -> bool {
        entries.contains_key((self.role)(account))
    }

    /// Whether the role's index lists every holder once and nobody else.
    pub open spec fn indexed(self, entries: Map<Key, Entry>) -> bool {
        &&& holds_members(entries, self.members)
        &&& all_accounts(members_at(entries, self.members))
        &&& members_at(entries, self.members).no_duplicates()
        &&& forall|account: Account| #[trigger]
            members_at(entries, self.members).contains(Item::Account(account)) == self.held_by(
                entries,
                account,
            )
    }

    /// Whether, for `Admin`, the counter is the number of accounts in the index.
    pub open spec fn counted(self, entries: Map<Key, Entry>) -> bool {
        self.is_admin ==> holds_count(entries, self.count) && count_at(entries, self.count)
            == members_at(entries, self.members).len()
    }

    /// Whether the index has room for the account, should it be new: a vector has at most
    /// `u32::MAX` items.
    pub open spec fn has_room(self, entries: Map<Key, Entry>, account: Account) -> bool {
        self.held_by(entries, account) || members_at(entries, self.members).len() < u32::MAX
    }

    /// Storage after `account` is granted the role, held or not.
    pub open spec fn after_grant(
        self,
        entries: Map<Key, Entry>,
        account: Account,
    ) -> Map<Key, Entry> {
        if self.held_by(entries, account) {
            entries
        } else {
            granted(
                entries,
                (self.role)(account),
                self.count,
                self.members,
                self.is_admin,
                account,
            )
        }
    }

    /// What the revocation of the role from `account` answers.
    pub open spec fn answer(
        self,
        entries: Map<Key, Entry>,
        account: Account,
    ) -> Result<bool, RbacError> {
        revocation(entries, (self.role)(account), self.count, self.is_admin)
    }

    /// Storage after the role is revoked from `account`, whatever the answer.
    pub open spec fn after_revoke(
        self,
        entries: Map<Key, Entry>,
        account: Account,
    ) -> Map<Key, Entry> {
        if self.answer(entries, account) == Ok::<bool, RbacError>(true) {
            revoked(
                entries,
                (self.role)(account),
                self.count,
                self.members,
                self.is_admin,
                account,
            )
        } else {
            entries
        }
    }
}

/// Leaving an account out of a list leaves the other items in, in their order and once
/// each if they were, and shortens a list that had it once by one.
proof fn lemma_without(members: Seq<Item>, account: Account)
    ensures
        forall|item: Item| #[trigger]
            without(members, account).contains(item) == (members.contains(item) && item
                != Item::Account(account)),
        members.no_duplicates() ==> without(members, account).no_duplicates(),
        members.no_duplicates() && members.contains(Item::Account(account)) ==> without(
            members,
            account,
        ).len() + 1 == members.len(),
        !members.contains(Item::Account(account)) ==> without(members, account) == members,
    decreases members.len(),
{
    reveal(Seq::filter);
    if members.len() > 0 {
        let rest = members.drop_last();
        let last = members.last();
        lemma_without(rest, account);
        assert(members == rest.push(last));
        lemma_push_contains(rest, last);
        let kept = without(rest, account);
        if last == Item::Account(account) {
            assert(without(members, account) == kept);
            if members.no_duplicates() {
                assert(!rest.contains(last));
            }
        } else {
            assert(without(members, account) == kept.push(last));
            lemma_push_contains(kept, last);
            if members.no_duplicates() {
                assert(!rest.contains(last));
                assert(!kept.contains(last));
            }
        }
    }
}

/// A list with one more item holds that item and those it held.
proof fn lemma_push_contains(items: Seq<Item>, last: Item)
    ensures
        forall|item: Item| #[trigger]
            items.push(last).contains(item) == (items.contains(item) || item == last),
{
    assert forall|item: Item| #[trigger]
        items.push(last).contains(item) == (items.contains(item) || item == last) by {
        if items.contains(item) {
            let i = choose|i: int| 0 <= i < items.len() && items[i] == item;
            assert(items.push(last)[i] == item);
        }
        if item == last {
            assert(items.push(last)[items.len() as int] == item);
        }
    }
}

/// A grant keeps the index and the counter right, adds the account as the last member
/// if it was none, and leaves every other holder as it was.
pub proof fn law_grant_maintains(
    slots: RoleSlots,
    entries: Map<Key, Entry>,
    account: Account,
)
    requires
        slots.separate(),
        slots.indexed(entries),
        slots.counted(entries),
        slots.has_room(entries, account),
    ensures
        slots.indexed(slots.after_grant(entries, account)),
        slots.counted(slots.after_grant(entries, account)),
        forall|a: Account| #[trigger]
            slots.held_by(slots.after_grant(entries, account), a) == (slots.held_by(entries, a) || a
                == account),
        members_at(slots.after_grant(entries, account), slots.members) == (if slots.held_by(
            entries,
            account,
        ) {
            members_at(entries, slots.members)
        } else {
            members_at(entries, slots.members).push(Item::Account(account))
        }),
{
    if !slots.held_by(entries, account) {
        let before = members_at(entries, slots.members);
        let after = slots.after_grant(entries, account);
        assert(members_at(after, slots.members) == before.push(Item::Account(account)));
        assert(!before.contains(Item::Account(account)));
        lemma_push_contains(before, Item::Account(account));
    }
}

/// A revocation keeps the index and the counter right, whatever it answers. One that
/// is carried out takes the account, and no other, out of the holders and out of the
/// index.
pub proof fn law_revoke_maintains(
    slots: RoleSlots,
    entries: Map<Key, Entry>,
    account: Account,
)
    requires
        slots.separate(),
        slots.indexed(entries),
        slots.counted(entries),
    ensures
        slots.indexed(slots.after_revoke(entries, account)),
        slots.counted(slots.after_revoke(entries, account)),
        slots.answer(entries, account) == Ok::<bool, RbacError>(true) ==> (forall|a: Account|
            #[trigger]
            slots.held_by(slots.after_revoke(entries, account), a) == (slots.held_by(entries, a)
                && a != account)),
        slots.answer(entries, account) == Ok::<bool, RbacError>(true) ==> members_at(
            slots.after_revoke(entries, account),
            slots.members,
        ) == without(members_at(entries, slots.members), account),
{
    let before = members_at(entries, slots.members);
    lemma_without(before, account);
    if slots.answer(entries, account) == Ok::<bool, RbacError>(true) {
        let after = slots.after_revoke(entries, account);
        assert(before.contains(Item::Account(account)));
        assert(members_at(after, slots.members) == without(before, account));
        assert forall|i: int| 0 <= i < without(before, account).len() implies #[trigger] without(
            before,
            account,
        )[i] is Account by {
            assert(without(before, account).contains(without(before, account)[i]));
            assert(before.contains(without(before, account)[i]));
        }
    }
}

/// While the index and the counter are right, every grant for which the index has room
/// and every revocation can be carried out or refused.
pub proof fn law_always_applicable(
    slots: RoleSlots,
    entries: Map<Key, Entry>,
    account: Account,
)
    requires
        slots.separate(),
        slots.indexed(entries),
        slots.counted(entries),
    ensures
        !slots.held_by(entries, account) && slots.has_room(entries, account) ==> grantable(
            entries,
            (slots.role)(account),
            slots.count,
            slots.members,
            slots.is_admin,
        ),
        slots.held_by(entries, account) ==> revocable(
            entries,
            (slots.role)(account),
            slots.count,
            slots.members,
            slots.is_admin,
        ),
{
}

/// The revocation of `Admin` from the only account that holds it is refused and
/// changes nothing; from one of several it is carried out.
pub proof fn law_last_admin_is_kept(
    slots: RoleSlots,
    entries: Map<Key, Entry>,
    account: Account,
)
    requires
        slots.is_admin,
        slots.indexed(entries),
        slots.counted(entries),
        slots.held_by(entries, account),
    ensures
        slots.answer(entries, account) == Err::<bool, RbacError>(RbacError::LastAdmin) <==> (
        forall|other: Account| #[trigger] slots.held_by(entries, other) ==> other == account),
        slots.answer(entries, account) == Err::<bool, RbacError>(RbacError::LastAdmin)
            || slots.answer(entries, account) == Ok::<bool, RbacError>(true),
        slots.answer(entries, account) == Err::<bool, RbacError>(RbacError::LastAdmin)
            ==> slots.after_revoke(entries, account) == entries,
{
    let members = members_at(entries, slots.members);
    assert(members.contains(Item::Account(account)));
    let i = choose|i: int| 0 <= i < members.len() && members[i] == Item::Account(account);
    if members.len() > 1 {
        let j: int = if i == 0 {
            1
        } else {
            0
        };
        assert(members.contains(members[j]));
        assert(slots.held_by(entries, members[j]->Account_0));
    } else {
        assert forall|other: Account| #[trigger] slots.held_by(entries, other) implies other
            == account by {
            assert(members.contains(Item::Account(other)));
        }
    }
}

/// Granting twice is granting once: afterwards the role is held, so that a second
/// grant changes nothing.
pub proof fn law_grant_is_idempotent(
    slots: RoleSlots,
    entries: Map<Key, Entry>,
    account: Account,
)
    ensures
        slots.held_by(slots.after_grant(entries, account), account),
        slots.after_grant(slots.after_grant(entries, account), account) == slots.after_grant(
            entries,
            account,
        ),
{
}

/// Revoking twice is revoking once: afterwards the role is not held, so that there
/// is nothing more to revoke.
pub proof fn law_revoke_is_idempotent(
    slots: RoleSlots,
    entries: Map<Key, Entry>,
    account: Account,
)
    requires
        slots.separate(),
        slots.answer(entries, account) is Ok,
    ensures
        !slots.held_by(slots.after_revoke(entries, account), account),
        slots.answer(slots.after_revoke(entries, account), account) == Ok::<bool, RbacError>(false),
        slots.after_revoke(slots.after_revoke(entries, account), account) == slots.after_revoke(
            entries,
            account,
        ),
{
}

/// A revocation undoes a grant to an account that did not hold the role: everything
/// that can be read afterwards is as it was, and so is every slot of other roles. For
/// the first `Admin` the revocation is refused instead.
pub proof fn law_revoke_undoes_grant(
    slots: RoleSlots,
    entries: Map<Key, Entry>,
    account: Account,
)
    requires
        slots.separate(),
        slots.indexed(entries),
        slots.counted(entries),
        members_at(entries, slots.members).len() < u32::MAX,
        !slots.held_by(entries, account),
        slots.is_admin ==> count_at(entries, slots.count) > 0,
    ensures
        ({
            let after = slots.after_revoke(slots.after_grant(entries, account), account);
            &&& slots.answer(slots.after_grant(entries, account), account) == Ok::<bool, RbacError>(
                true,
            )
            &&& members_at(after, slots.members) == members_at(entries, slots.members)
            &&& count_at(after, slots.count) == count_at(entries, slots.count)
            &&& forall|slot: Key|
                slot != slots.members ==> #[trigger] after.contains_key(slot)
                    == entries.contains_key(slot)
            &&& forall|slot: Key|
                slot != slots.members && entries.contains_key(slot) ==> #[trigger] after[slot]
                    == entries[slot]
        }),
{
    let before = members_at(entries, slots.members);
    law_grant_maintains(slots, entries, account);
    let between = slots.after_grant(entries, account);
    law_revoke_maintains(slots, between, account);
    lemma_without(before, account);
    assert(!before.contains(Item::Account(account)));
    assert(without(before.push(Item::Account(account)), account) == before) by {
        reveal(Seq::filter);
        assert(before.push(Item::Account(account)).drop_last() == before);
    }
    if slots.is_admin {
        assert(entries.contains_key(slots.count));
    }
}

/// Granting and revoking one role touches only the account's own mark, the role's
/// index and, for `Admin`, the counter.
pub proof fn law_other_slots_stay(
    slots: RoleSlots,
    entries: Map<Key, Entry>,
    account: Account,
    slot: Key,
)
    requires
        slot != (slots.role)(account),
        slot != slots.members,
        slots.is_admin ==> slot != slots.count,
    ensures
        slots.after_grant(entries, account).contains_key(slot) == entries.contains_key(slot),
        slots.after_revoke(entries, account).contains_key(slot) == entries.contains_key(slot),
        entries.contains_key(slot) ==> slots.after_grant(entries, account)[slot] == entries[slot],
        entries.contains_key(slot) ==> slots.after_revoke(entries, account)[slot] == entries[slot],
{
}

/// In a storage where the role's slots are empty nobody holds the role, and index and
/// counter are right.
pub proof fn law_empty_slots_are_right(slots: RoleSlots, entries: Map<Key, Entry>)
    requires
        forall|account: Account| !entries.contains_key(#[trigger] (slots.role)(account)),
        !entries.contains_key(slots.members),
        !entries.contains_key(slots.count),
    ensures
        slots.indexed(entries),
        slots.counted(entries),
        members_at(entries, slots.members).len() == 0,
        forall|account: Account| !#[trigger] slots.held_by(entries, account),
{
}

/// Where a contract keeps all of its roles, each known by a number.
pub ghost struct Roles {
    /// The slot that marks a role as held by an account.
    pub role: spec_fn(u32, Account) -> Key,
    /// The slot of a role's index.
    pub members: spec_fn(u32) -> Key,
    /// The slot of the admin counter.
    pub count: Key,
    /// The role that is `Admin`.
    pub admin: u32,
}

/// A grant or a revocation.
pub ghost enum Step {
    /// The role is granted to the account.
    Grant(u32, Account),
    /// The role is revoked from the account.
    Revoke(u32, Account),
}

impl Roles {
    /// The slots of one role.
    pub open spec fn of(self, role: u32) -> RoleSlots {
        RoleSlots {
            role: |account: Account| (self.role)(role, account),
            count: self.count,
            members: (self.members)(role),
            is_admin: role == self.admin,
        }
    }

    /// Whether no slot serves two purposes.
    pub open spec fn apart(self) -> bool {
        &&& forall|r: u32, a: Account, s: u32, b: Account| #[trigger]
            (self.role)(r, a) == #[trigger] (self.role)(s, b) ==> r == s && a == b
        &&& forall|r: u32, s: u32| #[trigger]
            (self.members)(r) == #[trigger] (self.members)(s) ==> r == s
        &&& forall|r: u32, a: Account, s: u32| #[trigger]
            (self.role)(r, a) != #[trigger] (self.members)(s)
        &&& forall|r: u32, a: Account| #[trigger] (self.role)(r, a) != self.count
        &&& forall|r: u32| #[trigger] (self.members)(r) != self.count
    }

    /// Whether every role's index is right, and the counter of `Admin`.
    pub open spec fn right(self, entries: Map<Key, Entry>) -> bool {
        forall|role: u32|
            (#[trigger] self.of(role)).indexed(entries) && self.of(role).counted(entries)
    }

    /// Whether some account holds `Admin`.
    pub open spec fn governed(self, entries: Map<Key, Entry>) -> bool {
        exists|account: Account| #[trigger] self.of(self.admin).held_by(entries, account)
    }

    /// Whether the step finds room in the index that it adds to.
    pub open spec fn has_room(self, entries: Map<Key, Entry>, step: Step) -> bool {
        match step {
            Step::Grant(role, account) => self.of(role).has_room(entries, account),
            Step::Revoke(role, account) => true,
        }
    }

    /// Storage after one step.
    pub open spec fn after_step(self, entries: Map<Key, Entry>, step: Step) -> Map<Key, Entry> {
        match step {
            Step::Grant(role, account) => self.of(role).after_grant(entries, account),
            Step::Revoke(role, account) => self.of(role).after_revoke(entries, account),
        }
    }

    /// Storage after a number of steps, one after the other.
    pub open spec fn after_steps(
        self,
        entries: Map<Key, Entry>,
        steps: Seq<Step>,
    ) -> Map<Key, Entry>
        decreases steps.len(),
    {
        if steps.len() == 0 {
            entries
        } else {
            self.after_step(self.after_steps(entries, steps.drop_last()), steps.last())
        }
    }

    /// Whether each step, when its turn comes, finds room in the index that it adds to.
    pub open spec fn roomy(self, entries: Map<Key, Entry>, steps: Seq<Step>) -> bool
        decreases steps.len(),
    {
        steps.len() > 0 ==> {
            &&& self.roomy(entries, steps.drop_last())
            &&& self.has_room(self.after_steps(entries, steps.drop_last()), steps.last())
        }
    }

    /// The number of the last step that newly granted the role to the account, counted
    /// from zero, if there is one.
    pub open spec fn newly_granted(
        self,
        entries: Map<Key, Entry>,
        steps: Seq<Step>,
        role: u32,
        account: Account,
    ) -> Option<int>
        decreases steps.len(),
    {
        if steps.len() == 0 {
            None
        } else if steps.last() == Step::Grant(role, account) && !self.of(role).held_by(
            self.after_steps(entries, steps.drop_last()),
            account,
        ) {
            Some(steps.len() - 1)
        } else {
            self.newly_granted(entries, steps.drop_last(), role, account)
        }
    }

    /// How far back in line an account stands: those listed at the start by their place
    /// in the index, and behind them those newly granted since by the step that did it.
    pub open spec fn rank(
        self,
        entries: Map<Key, Entry>,
        steps: Seq<Step>,
        role: u32,
        account: Account,
    ) -> int {
        let listed = members_at(entries, self.of(role).members);
        match self.newly_granted(entries, steps, role, account) {
            Some(step) => listed.len() + step,
            None => listed.index_of(Item::Account(account)),
        }
    }
}

/// The slots of each of a contract's roles serve one purpose each.
proof fn lemma_apart_is_separate(roles: Roles, role: u32)
    requires
        roles.apart(),
    ensures
        roles.of(role).separate(),
{
    let slots = roles.of(role);
    assert forall|a: Account, b: Account| #[trigger]
        (slots.role)(a) == #[trigger] (slots.role)(b) implies a == b by {
        assert((roles.role)(role, a) == (roles.role)(role, b));
    }
    assert forall|a: Account|
        (#[trigger] (slots.role)(a)) != slots.count && (slots.role)(a) != slots.members by {
        assert((roles.role)(role, a) != (roles.members)(role));
    }
}

/// Granting or revoking one role leaves who holds another, its index and its counter
/// as they were.
pub proof fn law_roles_do_not_interfere(
    roles: Roles,
    entries: Map<Key, Entry>,
    step: Step,
    other: u32,
)
    requires
        roles.apart(),
        step matches Step::Grant(role, _) ==> role != other,
        step matches Step::Revoke(role, _) ==> role != other,
    ensures
        members_at(roles.after_step(entries, step), roles.of(other).members) == members_at(
            entries,
            roles.of(other).members,
        ),
        forall|account: Account| #[trigger]
            roles.of(other).held_by(roles.after_step(entries, step), account) == roles.of(
                other,
            ).held_by(entries, account),
        other == roles.admin ==> count_at(roles.after_step(entries, step), roles.count) == count_at(
            entries,
            roles.count,
        ),
        roles.of(other).indexed(entries) ==> roles.of(other).indexed(
            roles.after_step(entries, step),
        ),
        roles.of(other).counted(entries) ==> roles.of(other).counted(
            roles.after_step(entries, step),
        ),
{
    let after = roles.after_step(entries, step);
    let others = roles.of(other);
    let (role, account) = match step {
        Step::Grant(role, account) => (role, account),
        Step::Revoke(role, account) => (role, account),
    };
    let slots = roles.of(role);
    assert((slots.role)(account) == (roles.role)(role, account));
    law_other_slots_stay(slots, entries, account, others.members);
    if other == roles.admin {
        law_other_slots_stay(slots, entries, account, others.count);
    }
    assert forall|a: Account| #[trigger] others.held_by(after, a) == others.held_by(entries, a) by {
        assert((others.role)(a) == (roles.role)(other, a));
        law_other_slots_stay(slots, entries, account, (others.role)(a));
    }
}

/// Where none of their slots has an entry, nobody holds a role, and every index and the
/// counter are right.
pub proof fn law_fresh_roles_are_right(roles: Roles, entries: Map<Key, Entry>)
    requires
        forall|role: u32, account: Account|
            !entries.contains_key(#[trigger] (roles.role)(role, account)),
        forall|role: u32| !entries.contains_key(#[trigger] (roles.members)(role)),
        !entries.contains_key(roles.count),
    ensures
        roles.right(entries),
        forall|role: u32, account: Account| !#[trigger] roles.of(role).held_by(entries, account),
{
    assert forall|role: u32|
        (#[trigger] roles.of(role)).indexed(entries) && roles.of(role).counted(entries) by {
        law_empty_slots_are_right(roles.of(role), entries);
    }
}

/// A step for which there is room keeps every index and the counter right, and does not
/// take `Admin` from the last account that holds it.
proof fn lemma_step(roles: Roles, entries: Map<Key, Entry>, step: Step)
    requires
        roles.apart(),
        roles.right(entries),
        roles.has_room(entries, step),
    ensures
        roles.right(roles.after_step(entries, step)),
        roles.governed(entries) ==> roles.governed(roles.after_step(entries, step)),
{
    let after = roles.after_step(entries, step);
    let (role, account) = match step {
        Step::Grant(role, account) => (role, account),
        Step::Revoke(role, account) => (role, account),
    };
    let slots = roles.of(role);
    lemma_apart_is_separate(roles, role);
    match step {
        Step::Grant(..) => law_grant_maintains(slots, entries, account),
        Step::Revoke(..) => law_revoke_maintains(slots, entries, account),
    }
    assert forall|other: u32|
        (#[trigger] roles.of(other)).indexed(after) && roles.of(other).counted(after) by {
        if other != role {
            law_roles_do_not_interfere(roles, entries, step, other);
        }
    }
    let admins = roles.of(roles.admin);
    if roles.governed(entries) {
        let holder = choose|a: Account| admins.held_by(entries, a);
        if role != roles.admin {
            law_roles_do_not_interfere(roles, entries, step, roles.admin);
            assert(admins.held_by(after, holder));
        } else if step is Grant || admins.answer(entries, account) != Ok::<bool, RbacError>(true) {
            assert(admins.held_by(after, holder));
        } else {
            let members = members_at(after, admins.members);
            lemma_without(members_at(entries, admins.members), account);
            assert(members_at(entries, admins.members).contains(Item::Account(account)));
            assert(members.contains(members[0]));
            assert(admins.held_by(after, members[0]->Account_0));
        }
    }
}

/// However roles are granted and revoked, in whatever mix, every index and the counter
/// stay right, and once an account holds `Admin` some account always does.
pub proof fn law_every_history(roles: Roles, entries: Map<Key, Entry>, steps: Seq<Step>)
    requires
        roles.apart(),
        roles.right(entries),
        roles.roomy(entries, steps),
    ensures
        roles.right(roles.after_steps(entries, steps)),
        roles.governed(entries) ==> roles.governed(roles.after_steps(entries, steps)),
    decreases steps.len(),
{
    if steps.len() > 0 {
        law_every_history(roles, entries, steps.drop_last());
        lemma_step(roles, roles.after_steps(entries, steps.drop_last()), steps.last());
    }
}

/// Two items that stand in some order once an account is left out stood in that order
/// before.
proof fn lemma_without_keeps_order(
    members: Seq<Item>,
    account: Account,
    i: int,
    j: int,
) -> (places: (int, int))
    requires
        0 <= i < j < without(members, account).len(),
    ensures
        0 <= places.0 < places.1 < members.len(),
        members[places.0] == without(members, account)[i],
        members[places.1] == without(members, account)[j],
    decreases members.len(),
{
    reveal(Seq::filter);
    let rest = members.drop_last();
    let kept = without(rest, account);
    if j < kept.len() {
        lemma_without_keeps_order(rest, account, i, j)
    } else {
        assert(without(members, account) == kept.push(members.last()));
        lemma_without(rest, account);
        assert(kept.contains(kept[i]));
        assert(rest.contains(kept[i]));
        (rest.index_of(kept[i]), members.len() - 1)
    }
}

/// An account that an index lists was listed at the start or newly granted the role by
/// one of the steps, and of two that it lists the first has the lower rank.
proof fn lemma_ranks(roles: Roles, entries: Map<Key, Entry>, steps: Seq<Step>, role: u32)
    requires
        roles.apart(),
        roles.right(entries),
        roles.roomy(entries, steps),
    ensures
        ({
            let listed = members_at(entries, roles.of(role).members);
            let members = members_at(roles.after_steps(entries, steps), roles.of(role).members);
            &&& forall|a: Account|
                #![trigger roles.newly_granted(entries, steps, role, a)]
                match roles.newly_granted(entries, steps, role, a) {
                    Some(step) => 0 <= step < steps.len(),
                    None => members.contains(Item::Account(a)) ==> listed.contains(
                        Item::Account(a),
                    ),
                }
            &&& forall|i: int, j: int|
                #![trigger members[i], members[j]]
                0 <= i < j < members.len() ==> roles.rank(
                    entries,
                    steps,
                    role,
                    members[i]->Account_0,
                ) < roles.rank(entries, steps, role, members[j]->Account_0)
        }),
    decreases steps.len(),
{
    let slots = roles.of(role);
    let listed = members_at(entries, slots.members);
    let after = roles.after_steps(entries, steps);
    let members = members_at(after, slots.members);
    assert(slots.indexed(entries));
    if steps.len() == 0 {
        assert forall|i: int, j: int|
            #![trigger members[i], members[j]]
            0 <= i < j < members.len() implies roles.rank(
            entries,
            steps,
            role,
            members[i]->Account_0,
        ) < roles.rank(entries, steps, role, members[j]->Account_0) by {
            assert(members[i] == Item::Account(members[i]->Account_0));
            assert(members[j] == Item::Account(members[j]->Account_0));
            let (p, q) = (listed.index_of(members[i]), listed.index_of(members[j]));
            assert(listed[p] == members[i] && listed[q] == members[j]);
        }
    } else {
        let earlier = steps.drop_last();
        let before = roles.after_steps(entries, earlier);
        let prior = members_at(before, slots.members);
        lemma_ranks(roles, entries, earlier, role);
        law_every_history(roles, entries, earlier);
        assert(slots.indexed(before));
        lemma_apart_is_separate(roles, role);
        let last = steps.last();
        lemma_step(roles, before, last);
        assert(slots.indexed(after));
        if last is Grant && last->Grant_0 == role {
            let account = last->Grant_1;
            law_grant_maintains(slots, before, account);
            lemma_push_contains(prior, Item::Account(account));
        } else if last is Revoke && last->Revoke_0 == role {
            let account = last->Revoke_1;
            law_revoke_maintains(slots, before, account);
            lemma_without(prior, account);
        } else {
            law_roles_do_not_interfere(roles, before, last, role);
        }
        assert forall|a: Account|
            #![trigger roles.newly_granted(entries, steps, role, a)]
            match roles.newly_granted(entries, steps, role, a) {
                Some(step) => 0 <= step < steps.len(),
                None => members.contains(Item::Account(a)) ==> listed.contains(Item::Account(a)),
            } by {
            assert(match roles.newly_granted(entries, earlier, role, a) {
                Some(step) => 0 <= step < earlier.len(),
                None => prior.contains(Item::Account(a)) ==> listed.contains(Item::Account(a)),
            });
        }
        assert forall|i: int, j: int|
            #![trigger members[i], members[j]]
            0 <= i < j < members.len() implies roles.rank(
            entries,
            steps,
            role,
            members[i]->Account_0,
        ) < roles.rank(entries, steps, role, members[j]->Account_0) by {
            assert(members[i] == Item::Account(members[i]->Account_0));
            assert(members[j] == Item::Account(members[j]->Account_0));
            let (first, second) = (members[i]->Account_0, members[j]->Account_0);
            assert(first != second);
            if last == Step::Grant(role, second) && !slots.held_by(before, second) {
                assert(members == prior.push(Item::Account(second)));
                assert(prior.contains(members[i]));
                assert(match roles.newly_granted(entries, earlier, role, first) {
                    Some(step) => 0 <= step < earlier.len(),
                    None => listed.contains(Item::Account(first)),
                });
            } else {
                if last == Step::Grant(role, first) && !slots.held_by(before, first) {
                    assert(members == prior.push(Item::Account(first)));
                    assert(members[members.len() - 1] == members[i]);
                }
                let (p, q) = if members == prior {
                    (i, j)
                } else if last is Grant {
                    assert(members == prior.push(Item::Account(last->Grant_1)));
                    (i, j)
                } else {
                    lemma_without_keeps_order(prior, last->Revoke_1, i, j)
                };
                assert(prior[p] == members[i] && prior[q] == members[j]);
                assert(roles.rank(entries, steps, role, first) == roles.rank(
                    entries,
                    earlier,
                    role,
                    first,
                ));
                assert(roles.rank(entries, steps, role, second) == roles.rank(
                    entries,
                    earlier,
                    role,
                    second,
                ));
            }
        }
    }
}

/// An index lists the accounts in the order in which they were newly granted the role,
/// behind those that it listed at the start, which keep their order.
pub proof fn law_index_is_in_order_of_grants(
    roles: Roles,
    entries: Map<Key, Entry>,
    steps: Seq<Step>,
    role: u32,
    i: int,
    j: int,
)
    requires
        roles.apart(),
        roles.right(entries),
        roles.roomy(entries, steps),
        0 <= i < j < members_at(roles.after_steps(entries, steps), roles.of(role).members).len(),
    ensures
        ({
            let members = members_at(roles.after_steps(entries, steps), roles.of(role).members);
            &&& members[i] matches Item::Account(first)
            &&& members[j] matches Item::Account(second)
            &&& roles.rank(entries, steps, role, first) < roles.rank(entries, steps, role, second)
        }),
{
    law_every_history(roles, entries, steps);
    assert(roles.of(role).indexed(roles.after_steps(entries, steps)));
    lemma_ranks(roles, entries, steps, role);
}

} // verus!
