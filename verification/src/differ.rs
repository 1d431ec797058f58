//! The comparison of the wanted state with the observed one.

use crate::sync_structs::{Group, GroupView, LocalRoot, LocalRootView, User, UserView};
use crate::snapshot::{
    find_group, find_user, group_named, has_group, has_user, lemma_group_named, lemma_user_named,
    user_named,
};
use crate::system_parser::{SystemGroup, SystemGroupView, SystemUser, SystemUserView};
use vstd::prelude::*;

verus! {

/// What has to happen to the host: the users and groups to add, those to look
/// at for an update, and those to remove. Users come first in each pair.
#[derive(Debug)]
pub struct Differ {
    pub add: (Vec<User>, Vec<Group>),
    pub update: (Vec<User>, Vec<Group>),
    pub remove: (Vec<SystemUser>, Vec<SystemGroup>),
}

/// What a [`Differ`] stands for in contracts.
pub struct DifferView {
    pub add: (Seq<UserView>, Seq<GroupView>),
    pub update: (Seq<UserView>, Seq<GroupView>),
    pub remove: (Seq<SystemUserView>, Seq<SystemGroupView>),
}

impl View for Differ {
    type V = DifferView;

    open spec fn view(&self) -> DifferView {
        DifferView {
            add: self.add.deep_view(),
            update: self.update.deep_view(),
            remove: self.remove.deep_view(),
        }
    }
}

/// Whether a user of that name is wanted.
pub open spec fn wants_user(users: Seq<UserView>, name: Seq<char>) -> bool {
    exists|i: int| 0 <= i < users.len() && (#[trigger] users[i]).username == name
}

/// Whether a group of that name is wanted.
pub open spec fn wants_group(groups: Seq<GroupView>, name: Seq<char>) -> bool {
    exists|i: int| 0 <= i < groups.len() && (#[trigger] groups[i]).name == name
}

/// Tells the wanted users that the host has from those that it lacks.
pub open spec fn user_observed(system: Seq<SystemUserView>) -> spec_fn(UserView) -> bool {
    |user: UserView| user_named(system, user.username) is Some
}

/// Tells the wanted users that the host lacks from those that it has.
pub open spec fn user_missing(system: Seq<SystemUserView>) -> spec_fn(UserView) -> bool {
    |user: UserView| user_named(system, user.username) is None
}

/// Tells the users of the host that nobody wants from the wanted ones.
pub open spec fn user_unwanted(sync: Seq<UserView>) -> spec_fn(SystemUserView) -> bool {
    |user: SystemUserView| !wants_user(sync, user.username)
}

/// Tells the wanted groups that the host has from those that it lacks.
pub open spec fn group_observed(system: Seq<SystemGroupView>) -> spec_fn(GroupView) -> bool {
    |group: GroupView| group_named(system, group.name) is Some
}

/// Tells the wanted groups that the host lacks from those that it has.
pub open spec fn group_missing(system: Seq<SystemGroupView>) -> spec_fn(GroupView) -> bool {
    |group: GroupView| group_named(system, group.name) is None
}

/// Tells the groups of the host that nobody wants from the wanted ones.
pub open spec fn group_unwanted(sync: Seq<GroupView>) -> spec_fn(SystemGroupView) -> bool {
    |group: SystemGroupView| !wants_group(sync, group.name)
}

/// The wanted users and groups that the host lacks, in the order in which
/// they are wanted.
pub open spec fn additions(
    sync: LocalRootView,
    system: (Seq<SystemUserView>, Seq<SystemGroupView>),
) -> (Seq<UserView>, Seq<GroupView>) {
    (sync.users.filter(user_missing(system.0)), sync.groups.filter(group_missing(system.1)))
}

/// The wanted users and groups that the host has under the same name, in the
/// order in which they are wanted.
pub open spec fn updates(
    sync: LocalRootView,
    system: (Seq<SystemUserView>, Seq<SystemGroupView>),
) -> (Seq<UserView>, Seq<GroupView>) {
    (sync.users.filter(user_observed(system.0)), sync.groups.filter(group_observed(system.1)))
}

/// The users and groups of the host that nobody wants, in the order in which
/// the host holds them.
pub open spec fn removals(
    sync: LocalRootView,
    system: (Seq<SystemUserView>, Seq<SystemGroupView>),
) -> (Seq<SystemUserView>, Seq<SystemGroupView>) {
    (system.0.filter(user_unwanted(sync.users)), system.1.filter(group_unwanted(sync.groups)))
}

/// The plan that brings the host from the observed state to the wanted one.
/// Users and groups are matched by name alone.
pub open spec fn differ(
    sync: LocalRootView,
    system: (Seq<SystemUserView>, Seq<SystemGroupView>),
) -> DifferView {
    DifferView {
        add: additions(sync, system),
        update: updates(sync, system),
        remove: removals(sync, system),
    }
}

/// Whether the host has a user of the name of each of the given wanted users.
pub open spec fn users_observed(update: Seq<UserView>, users: Seq<SystemUserView>) -> bool {
    forall|i: int|
        0 <= i < update.len() ==> user_named(users, (#[trigger] update[i]).username) is Some
}

/// Whether the host has a group of the name of each of the given wanted
/// groups.
pub open spec fn groups_observed(update: Seq<GroupView>, groups: Seq<SystemGroupView>) -> bool {
    forall|i: int|
        0 <= i < update.len() ==> group_named(groups, (#[trigger] update[i]).name) is Some
}

/// The host has a user or a group of the name of every update candidate.
pub proof fn lemma_candidates_observed(
    sync: LocalRootView,
    system: (Seq<SystemUserView>, Seq<SystemGroupView>),
)
    ensures
        users_observed(updates(sync, system).0, system.0),
        groups_observed(updates(sync, system).1, system.1),
{
    let update = updates(sync, system);
    assert forall|i: int| 0 <= i < update.0.len() implies user_named(
        system.0,
        (#[trigger] update.0[i]).username,
    ) is Some by {
        sync.users.lemma_filter_pred(user_observed(system.0), i);
    }
    assert forall|i: int| 0 <= i < update.1.len() implies group_named(
        system.1,
        (#[trigger] update.1[i]).name,
    ) is Some by {
        sync.groups.lemma_filter_pred(group_observed(system.1), i);
    }
}

fn is_wanted_user(users: &Vec<User>, name: &String) -> (wanted: bool)
    ensures
        wanted == wants_user(users.deep_view(), name@),
{
    let mut i: usize = 0;
    while i < users.len()
        invariant
            i <= users.len(),
            forall|k: int| 0 <= k < i ==> users.deep_view()[k].username != name@,
        decreases users.len() - i,
    {
        if users[i].username == *name {
            assert(users.deep_view()[i as int].username == name@);
            return true;
        }
        i = i + 1;
    }
    false
}

fn is_wanted_group(groups: &Vec<Group>, name: &String) -> (wanted: bool)
    ensures
        wanted == wants_group(groups.deep_view(), name@),
{
    let mut i: usize = 0;
    while i < groups.len()
        invariant
            i <= groups.len(),
            forall|k: int| 0 <= k < i ==> groups.deep_view()[k].name != name@,
        decreases groups.len() - i,
    {
        if groups[i].name == *name {
            assert(groups.deep_view()[i as int].name == name@);
            return true;
        }
        i = i + 1;
    }
    false
}

/// The wanted users that the host has (`observed`) or lacks.
fn select_users(users: &Vec<User>, system: &Vec<SystemUser>, observed: bool) -> (chosen: Vec<User>)
    ensures
        chosen.deep_view() == users.deep_view().filter(
            if observed {
                user_observed(system.deep_view())
            } else {
                user_missing(system.deep_view())
            },
        ),
{
    let ghost all = users.deep_view();
    let ghost keep = if observed {
        user_observed(system.deep_view())
    } else {
        user_missing(system.deep_view())
    };
    let mut chosen: Vec<User> = Vec::new();
    let mut i: usize = 0;
    proof {
        reveal(Seq::filter);
    }
    while i < users.len()
        invariant
            i <= users.len(),
            all == users.deep_view(),
            keep == if observed {
                user_observed(system.deep_view())
            } else {
                user_missing(system.deep_view())
            },
            chosen.deep_view() == all.take(i as int).filter(keep),
        decreases users.len() - i,
    {
        proof {
            assert(all.take(i + 1) =~= all.take(i as int).push(all[i as int]));
            all.take(i as int).lemma_filter_push(all[i as int], keep);
        }
        if find_user(system, &users[i].username).is_some() == observed {
            chosen.push(users[i].clone());
        }
        i = i + 1;
    }
    assert(all.take(users.len() as int) =~= all);
    chosen
}

/// The wanted groups that the host has (`observed`) or lacks.
fn select_groups(groups: &Vec<Group>, system: &Vec<SystemGroup>, observed: bool) -> (chosen: Vec<
    Group,
>)
    ensures
        chosen.deep_view() == groups.deep_view().filter(
            if observed {
                group_observed(system.deep_view())
            } else {
                group_missing(system.deep_view())
            },
        ),
{
    let ghost all = groups.deep_view();
    let ghost keep = if observed {
        group_observed(system.deep_view())
    } else {
        group_missing(system.deep_view())
    };
    let mut chosen: Vec<Group> = Vec::new();
    let mut i: usize = 0;
    proof {
        reveal(Seq::filter);
    }
    while i < groups.len()
        invariant
            i <= groups.len(),
            all == groups.deep_view(),
            keep == if observed {
                group_observed(system.deep_view())
            } else {
                group_missing(system.deep_view())
            },
            chosen.deep_view() == all.take(i as int).filter(keep),
        decreases groups.len() - i,
    {
        proof {
            assert(all.take(i + 1) =~= all.take(i as int).push(all[i as int]));
            all.take(i as int).lemma_filter_push(all[i as int], keep);
        }
        if find_group(system, &groups[i].name).is_some() == observed {
            chosen.push(groups[i].clone());
        }
        i = i + 1;
    }
    assert(all.take(groups.len() as int) =~= all);
    chosen
}

impl Differ {
    /// Compares the wanted state with the observed one. Users and groups are
    /// matched by their names alone: what is wanted and not observed is to
    /// be added, what is both is a candidate for an update, and what is
    /// observed and not wanted is to be removed. Each list keeps the order
    /// of the state that it is taken from.
    pub fn new(sync: &LocalRoot, system: &(Vec<SystemUser>, Vec<SystemGroup>)) -> (diff: Self)
        ensures
            diff@ == differ(sync@, system.deep_view()),
            users_observed(diff@.update.0, system.deep_view().0),
            groups_observed(diff@.update.1, system.deep_view().1),
    {
        proof {
            lemma_candidates_observed(sync@, system.deep_view());
        }
        Self {
            add: Self::detect_add(sync, system),
            update: Self::detect_update(sync, system),
            remove: Self::detect_remove(sync, system),
        }
    }

    /// Finds the users and groups that the host lacks.
    pub fn detect_add(sync: &LocalRoot, system: &(Vec<SystemUser>, Vec<SystemGroup>)) -> (add: (
        Vec<User>,
        Vec<Group>,
    ))
        ensures
            add.deep_view() == additions(sync@, system.deep_view()),
    {
        let add_users = select_users(&sync.users, &system.0, false);
        let add_groups = select_groups(&sync.groups, &system.1, false);
        (add_users, add_groups)
    }

    /// Finds the users and groups that are wanted and that the host has.
    pub fn detect_update(sync: &LocalRoot, system: &(Vec<SystemUser>, Vec<SystemGroup>)) -> (update:
        (Vec<User>, Vec<Group>))
        ensures
            update.deep_view() == updates(sync@, system.deep_view()),
            users_observed(update.deep_view().0, system.deep_view().0),
            groups_observed(update.deep_view().1, system.deep_view().1),
    {
        proof {
            lemma_candidates_observed(sync@, system.deep_view());
        }
        let update_users = select_users(&sync.users, &system.0, true);
        let update_groups = select_groups(&sync.groups, &system.1, true);
        (update_users, update_groups)
    }

    /// Finds the users and groups of the host that nobody wants.
    pub fn detect_remove(sync: &LocalRoot, system: &(Vec<SystemUser>, Vec<SystemGroup>)) -> (remove:
        (Vec<SystemUser>, Vec<SystemGroup>))
        ensures
            remove.deep_view() == removals(sync@, system.deep_view()),
    {
        let ghost wanted = sync@;
        let ghost users = system.deep_view().0;
        let ghost groups = system.deep_view().1;

        let mut remove_users: Vec<SystemUser> = Vec::new();
        let mut i: usize = 0;
        proof {
            reveal(Seq::filter);
        }
        while i < system.0.len()
            invariant
                i <= system.0.len(),
                wanted == sync@,
                users == system.0.deep_view(),
                remove_users.deep_view() == users.take(i as int).filter(
                    user_unwanted(wanted.users),
                ),
            decreases system.0.len() - i,
        {
            proof {
                assert(users.take(i + 1) =~= users.take(i as int).push(users[i as int]));
                users.take(i as int).lemma_filter_push(
                    users[i as int],
                    user_unwanted(wanted.users),
                );
            }
            if !is_wanted_user(&sync.users, &system.0[i].username) {
                remove_users.push(system.0[i].clone());
            }
            i = i + 1;
        }
        assert(users.take(system.0.len() as int) =~= users);

        let mut remove_groups: Vec<SystemGroup> = Vec::new();
        let mut j: usize = 0;
        proof {
            reveal(Seq::filter);
        }
        while j < system.1.len()
            invariant
                j <= system.1.len(),
                wanted == sync@,
                groups == system.1.deep_view(),
                remove_groups.deep_view() == groups.take(j as int).filter(
                    group_unwanted(wanted.groups),
                ),
            decreases system.1.len() - j,
        {
            proof {
                assert(groups.take(j + 1) =~= groups.take(j as int).push(groups[j as int]));
                groups.take(j as int).lemma_filter_push(
                    groups[j as int],
                    group_unwanted(wanted.groups),
                );
            }
            if !is_wanted_group(&sync.groups, &system.1[j].name) {
                remove_groups.push(system.1[j].clone());
            }
            j = j + 1;
        }
        assert(groups.take(system.1.len() as int) =~= groups);
        (remove_users, remove_groups)
    }
}

/// The names of the given wanted users.
pub open spec fn wanted_user_names(users: Seq<UserView>) -> Set<Seq<char>> {
    Set::new(|name: Seq<char>| wants_user(users, name))
}

/// The names of the given wanted groups.
pub open spec fn wanted_group_names(groups: Seq<GroupView>) -> Set<Seq<char>> {
    Set::new(|name: Seq<char>| wants_group(groups, name))
}

/// The names of the given users of the host.
pub open spec fn observed_user_names(users: Seq<SystemUserView>) -> Set<Seq<char>> {
    Set::new(|name: Seq<char>| has_user(users, name))
}

/// The names of the given groups of the host.
pub open spec fn observed_group_names(groups: Seq<SystemGroupView>) -> Set<Seq<char>> {
    Set::new(|name: Seq<char>| has_group(groups, name))
}

spec fn named<A>(items: Seq<A>, name_of: spec_fn(A) -> Seq<char>, name: Seq<char>) -> bool {
    exists|i: int| 0 <= i < items.len() && name_of(#[trigger] items[i]) == name
}

/// Where a test goes by the name alone, the names that are kept are the
/// names that the test accepts.
proof fn lemma_kept_names<A>(
    items: Seq<A>,
    keep: spec_fn(A) -> bool,
    name_of: spec_fn(A) -> Seq<char>,
    accept: spec_fn(Seq<char>) -> bool,
)
    requires
        forall|item: A| #[trigger] keep(item) == accept(name_of(item)),
    ensures
        forall|name: Seq<char>| #[trigger]
            named(items.filter(keep), name_of, name) <==> named(items, name_of, name) && accept(
                name,
            ),
{
    let kept = items.filter(keep);
    assert forall|name: Seq<char>| #[trigger]
        named(kept, name_of, name) <==> named(items, name_of, name) && accept(name) by {
        if named(kept, name_of, name) {
            let i = choose|i: int| 0 <= i < kept.len() && name_of(#[trigger] kept[i]) == name;
            items.lemma_filter_pred(keep, i);
            items.lemma_filter_contains_rev(keep, kept[i]);
        }
        if named(items, name_of, name) && accept(name) {
            let j = choose|j: int| 0 <= j < items.len() && name_of(#[trigger] items[j]) == name;
            items.lemma_filter_contains(keep, j);
        }
    }
}

/// The plan sorts the users by their names. Those to add are the users whose
/// names are wanted and not observed, those to update the users whose names
/// are both, those to remove the users whose names are observed and not
/// wanted. No name is in two of the three.
pub proof fn lemma_users_partitioned(
    sync: LocalRootView,
    system: (Seq<SystemUserView>, Seq<SystemGroupView>),
)
    ensures
        ({
            let diff = differ(sync, system);
            let wanted = wanted_user_names(sync.users);
            let observed = observed_user_names(system.0);
            &&& wanted_user_names(diff.add.0) == wanted.difference(observed)
            &&& wanted_user_names(diff.update.0) == wanted.intersect(observed)
            &&& observed_user_names(diff.remove.0) == observed.difference(wanted)
            &&& wanted_user_names(diff.add.0).disjoint(wanted_user_names(diff.update.0))
            &&& wanted_user_names(diff.add.0).disjoint(observed_user_names(diff.remove.0))
            &&& wanted_user_names(diff.update.0).disjoint(observed_user_names(diff.remove.0))
        }),
{
    let diff = differ(sync, system);
    let wanted = wanted_user_names(sync.users);
    let observed = observed_user_names(system.0);
    let wanted_name = |user: UserView| user.username;
    let observed_name = |user: SystemUserView| user.username;
    assert forall|name: Seq<char>| #[trigger]
        has_user(system.0, name) == (user_named(system.0, name) is Some) by {
        lemma_user_named(system.0, name);
    }
    lemma_kept_names(
        sync.users,
        user_missing(system.0),
        wanted_name,
        |name: Seq<char>| !has_user(system.0, name),
    );
    lemma_kept_names(
        sync.users,
        user_observed(system.0),
        wanted_name,
        |name: Seq<char>| has_user(system.0, name),
    );
    lemma_kept_names(
        system.0,
        user_unwanted(sync.users),
        observed_name,
        |name: Seq<char>| !wants_user(sync.users, name),
    );
    assert forall|users: Seq<UserView>, name: Seq<char>|
        wants_user(users, name) == #[trigger] named(users, wanted_name, name) by {}
    assert forall|users: Seq<SystemUserView>, name: Seq<char>|
        has_user(users, name) == #[trigger] named(users, observed_name, name) by {}
    assert forall|name: Seq<char>|
        wanted_user_names(diff.add.0).contains(name) <==> wanted.difference(observed).contains(
            name,
        ) by {
        assert(wants_user(diff.add.0, name) == named(diff.add.0, wanted_name, name));
    }
    assert forall|name: Seq<char>|
        wanted_user_names(diff.update.0).contains(name) <==> wanted.intersect(observed).contains(
            name,
        ) by {
        assert(wants_user(diff.update.0, name) == named(diff.update.0, wanted_name, name));
    }
    assert forall|name: Seq<char>|
        observed_user_names(diff.remove.0).contains(name) <==> observed.difference(wanted).contains(
            name,
        ) by {
        assert(has_user(diff.remove.0, name) == named(diff.remove.0, observed_name, name));
    }
}

/// The plan sorts the groups by their names. Those to add are the groups
/// whose names are wanted and not observed, those to update the groups whose
/// names are both, those to remove the groups whose names are observed and
/// not wanted. No name is in two of the three.
pub proof fn lemma_groups_partitioned(
    sync: LocalRootView,
    system: (Seq<SystemUserView>, Seq<SystemGroupView>),
)
    ensures
        ({
            let diff = differ(sync, system);
            let wanted = wanted_group_names(sync.groups);
            let observed = observed_group_names(system.1);
            &&& wanted_group_names(diff.add.1) == wanted.difference(observed)
            &&& wanted_group_names(diff.update.1) == wanted.intersect(observed)
            &&& observed_group_names(diff.remove.1) == observed.difference(wanted)
            &&& wanted_group_names(diff.add.1).disjoint(wanted_group_names(diff.update.1))
            &&& wanted_group_names(diff.add.1).disjoint(observed_group_names(diff.remove.1))
            &&& wanted_group_names(diff.update.1).disjoint(observed_group_names(diff.remove.1))
        }),
{
    let diff = differ(sync, system);
    let wanted = wanted_group_names(sync.groups);
    let observed = observed_group_names(system.1);
    let wanted_name = |group: GroupView| group.name;
    let observed_name = |group: SystemGroupView| group.name;
    assert forall|name: Seq<char>| #[trigger]
        has_group(system.1, name) == (group_named(system.1, name) is Some) by {
        lemma_group_named(system.1, name);
    }
    lemma_kept_names(
        sync.groups,
        group_missing(system.1),
        wanted_name,
        |name: Seq<char>| !has_group(system.1, name),
    );
    lemma_kept_names(
        sync.groups,
        group_observed(system.1),
        wanted_name,
        |name: Seq<char>| has_group(system.1, name),
    );
    lemma_kept_names(
        system.1,
        group_unwanted(sync.groups),
        observed_name,
        |name: Seq<char>| !wants_group(sync.groups, name),
    );
    assert forall|groups: Seq<GroupView>, name: Seq<char>|
        wants_group(groups, name) == #[trigger] named(groups, wanted_name, name) by {}
    assert forall|groups: Seq<SystemGroupView>, name: Seq<char>|
        has_group(groups, name) == #[trigger] named(groups, observed_name, name) by {}
    assert forall|name: Seq<char>|
        wanted_group_names(diff.add.1).contains(name) <==> wanted.difference(observed).contains(
            name,
        ) by {
        assert(wants_group(diff.add.1, name) == named(diff.add.1, wanted_name, name));
    }
    assert forall|name: Seq<char>|
        wanted_group_names(diff.update.1).contains(name) <==> wanted.intersect(observed).contains(
            name,
        ) by {
        assert(wants_group(diff.update.1, name) == named(diff.update.1, wanted_name, name));
    }
    assert forall|name: Seq<char>|
        observed_group_names(diff.remove.1).contains(name) <==> observed.difference(
            wanted,
        ).contains(name) by {
        assert(has_group(diff.remove.1, name) == named(diff.remove.1, observed_name, name));
    }
}

/// Two tests of which each item passes exactly one cut a sequence in two:
/// what the one keeps and what the other keeps are as many as the sequence
/// holds.
proof fn lemma_cut_in_two<A>(items: Seq<A>, one: spec_fn(A) -> bool, other: spec_fn(A) -> bool)
    requires
        forall|item: A| #[trigger] one(item) != other(item),
    ensures
        items.filter(one).len() + items.filter(other).len() == items.len(),
    decreases items.len(),
{
    reveal(Seq::filter);
    if items.len() > 0 {
        lemma_cut_in_two(items.drop_last(), one, other);
    }
}

/// Every wanted user and every wanted group is in the plan once, to be added
/// or to be looked at for an update.
pub proof fn lemma_wanted_once(
    sync: LocalRootView,
    system: (Seq<SystemUserView>, Seq<SystemGroupView>),
)
    ensures
        additions(sync, system).0.len() + updates(sync, system).0.len() == sync.users.len(),
        additions(sync, system).1.len() + updates(sync, system).1.len() == sync.groups.len(),
{
    lemma_cut_in_two(sync.users, user_missing(system.0), user_observed(system.0));
    lemma_cut_in_two(sync.groups, group_missing(system.1), group_observed(system.1));
}

spec fn distinct<A>(items: Seq<A>, name_of: spec_fn(A) -> Seq<char>) -> bool {
    forall|i: int, j: int|
        0 <= i < j < items.len() ==> name_of(#[trigger] items[i]) != name_of(#[trigger] items[j])
}

/// What is kept of items with distinct names has distinct names.
proof fn lemma_kept_distinct<A>(
    items: Seq<A>,
    keep: spec_fn(A) -> bool,
    name_of: spec_fn(A) -> Seq<char>,
)
    requires
        distinct(items, name_of),
    ensures
        distinct(items.filter(keep), name_of),
    decreases items.len(),
{
    reveal(Seq::filter);
    if items.len() > 0 {
        let before = items.drop_last();
        let kept = before.filter(keep);
        assert(forall|i: int, j: int|
            0 <= i < j < before.len() ==> name_of(#[trigger] before[i]) != name_of(
                #[trigger] before[j],
            ));
        lemma_kept_distinct(before, keep, name_of);
        if keep(items.last()) {
            let all = kept.push(items.last());
            assert forall|i: int, j: int| 0 <= i < j < all.len() implies name_of(
                #[trigger] all[i],
            ) != name_of(#[trigger] all[j]) by {
                if j == kept.len() {
                    before.lemma_filter_contains_rev(keep, kept[i]);
                }
            }
        }
    }
}

/// Whether no two of the wanted users have the same name.
pub open spec fn wanted_users_distinct(users: Seq<UserView>) -> bool {
    forall|i: int, j: int|
        0 <= i < j < users.len() ==> (#[trigger] users[i]).username != (
        #[trigger] users[j]).username
}

/// Whether no two of the wanted groups have the same name.
pub open spec fn wanted_groups_distinct(groups: Seq<GroupView>) -> bool {
    forall|i: int, j: int|
        0 <= i < j < groups.len() ==> (#[trigger] groups[i]).name != (#[trigger] groups[j]).name
}

/// Whether no two of the users of the host have the same name.
pub open spec fn observed_users_distinct(users: Seq<SystemUserView>) -> bool {
    forall|i: int, j: int|
        0 <= i < j < users.len() ==> (#[trigger] users[i]).username != (
        #[trigger] users[j]).username
}

/// Whether no two of the groups of the host have the same name.
pub open spec fn observed_groups_distinct(groups: Seq<SystemGroupView>) -> bool {
    forall|i: int, j: int|
        0 <= i < j < groups.len() ==> (#[trigger] groups[i]).name != (#[trigger] groups[j]).name
}

/// Where the names are distinct among the wanted users, among the wanted
/// groups, among the users of the host and among its groups, they are
/// distinct in each list of the plan: with the names sorted into the lists,
/// every user and every group is in the plan at most once.
pub proof fn lemma_plan_names_distinct(
    sync: LocalRootView,
    system: (Seq<SystemUserView>, Seq<SystemGroupView>),
)
    requires
        wanted_users_distinct(sync.users),
        wanted_groups_distinct(sync.groups),
        observed_users_distinct(system.0),
        observed_groups_distinct(system.1),
    ensures
        ({
            let diff = differ(sync, system);
            &&& wanted_users_distinct(diff.add.0)
            &&& wanted_users_distinct(diff.update.0)
            &&& observed_users_distinct(diff.remove.0)
            &&& wanted_groups_distinct(diff.add.1)
            &&& wanted_groups_distinct(diff.update.1)
            &&& observed_groups_distinct(diff.remove.1)
        }),
{
    let diff = differ(sync, system);
    let wanted_user = |user: UserView| user.username;
    let wanted_group = |group: GroupView| group.name;
    let observed_user = |user: SystemUserView| user.username;
    let observed_group = |group: SystemGroupView| group.name;
    lemma_kept_distinct(sync.users, user_missing(system.0), wanted_user);
    lemma_kept_distinct(sync.users, user_observed(system.0), wanted_user);
    lemma_kept_distinct(system.0, user_unwanted(sync.users), observed_user);
    lemma_kept_distinct(sync.groups, group_missing(system.1), wanted_group);
    lemma_kept_distinct(sync.groups, group_observed(system.1), wanted_group);
    lemma_kept_distinct(system.1, group_unwanted(sync.groups), observed_group);
}

} // verus!
