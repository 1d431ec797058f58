//! What holds of a whole pass: the order of its steps, what it does where the
//! host has converged, and what it never does.

use crate::differ::{
    differ, group_missing, group_observed, group_unwanted, lemma_candidates_observed,
    user_missing, user_observed, user_unwanted, wants_group, wants_user, DifferView,
};
use crate::runner::{
    applicable, call, freshest, group_steps, group_update, password_line, password_lines,
    password_push, primary_change, primary_name, stage_steps, supplementary_change, uid_change,
    user_addition, user_additions, user_removals, user_steps, user_update, user_updates,
    InvocationView, Operation, Stage, StepView,
};
use crate::sync_structs::{GroupView, LocalRootView, UserView};
use crate::snapshot::{group_named, group_with_gid, memberships, user_named};
use crate::system_parser::{SystemGroupView, SystemUserView};
use crate::text::{join, lemma_one_piece, lemma_pieces_of_both, lines, pieces};
use vstd::prelude::*;

verus! {

/// The steps of a whole pass, where reading the groups again gave `reread`.
pub open spec fn pass(
    diff: DifferView,
    system: (Seq<SystemUserView>, Seq<SystemGroupView>),
    sync: LocalRootView,
    reread: Option<Seq<SystemGroupView>>,
) -> Seq<StepView> {
    stage_steps(diff, system, sync, Stage::Groups, reread) + stage_steps(
        diff,
        system,
        sync,
        Stage::Users,
        reread,
    ) + stage_steps(diff, system, sync, Stage::Passwords, reread)
}

/// An update candidate gives rise to calls that change that user, or to a
/// report, and to nothing else.
proof fn lemma_user_updates_stay_with_users(
    update: Seq<UserView>,
    users: Seq<SystemUserView>,
    groups: Seq<SystemGroupView>,
)
    ensures
        forall|i: int|
            0 <= i < user_updates(update, users, groups).len() ==> {
                let step = #[trigger] user_updates(update, users, groups)[i];
                step.changes_user() || step is Invalid || step is Unchanged
            },
    decreases update.len(),
{
    if update.len() > 0 {
        lemma_user_updates_stay_with_users(update.drop_last(), users, groups);
    }
}

/// In a pass every call that changes a group comes before the request to
/// read the groups again, and every call that changes a user comes after it:
/// no user is touched before all groups are as wanted.
pub proof fn lemma_groups_before_users(
    diff: DifferView,
    system: (Seq<SystemUserView>, Seq<SystemGroupView>),
    sync: LocalRootView,
    reread: Option<Seq<SystemGroupView>>,
)
    ensures
        ({
            let steps = pass(diff, system, sync, reread);
            let refresh = group_steps(diff, system.1).len() - 1;
            &&& 0 <= refresh < steps.len()
            &&& steps[refresh] == StepView::Refresh
            &&& forall|i: int|
                0 <= i < steps.len() && (#[trigger] steps[i]).changes_group() ==> i < refresh
            &&& forall|i: int|
                0 <= i < steps.len() && (#[trigger] steps[i]).changes_user() ==> refresh < i
            &&& forall|i: int, j: int|
                0 <= i < steps.len() && 0 <= j < steps.len()
                    && (#[trigger] steps[i]).changes_group()
                    && (#[trigger] steps[j]).changes_user() ==> i < j
        }),
{
    lemma_user_updates_stay_with_users(diff.update.0, system.0, freshest(reread, system.1));
}

/// A pass sets the passwords once, as its last step, and for all wanted
/// users, whatever else was decided about them.
pub proof fn lemma_one_password_push(
    diff: DifferView,
    system: (Seq<SystemUserView>, Seq<SystemGroupView>),
    sync: LocalRootView,
    reread: Option<Seq<SystemGroupView>>,
)
    ensures
        ({
            let steps = pass(diff, system, sync, reread);
            &&& steps.len() > 0
            &&& steps.last() == password_push(sync.users, sync.encrypted)
            &&& forall|i: int|
                0 <= i < steps.len() && (#[trigger] steps[i]).sets_passwords() ==> i == steps.len()
                    - 1
        }),
{
    lemma_user_updates_stay_with_users(diff.update.0, system.0, freshest(reread, system.1));
}

/// A wanted user without groups is left alone: whatever its uid and its
/// password, and whatever the host holds, the only step for it is the report
/// that it is invalid, be it a user to add or an update candidate.
pub proof fn lemma_user_without_groups_untouched(
    user: UserView,
    users: Seq<SystemUserView>,
    groups: Seq<SystemGroupView>,
)
    requires
        user.groups.len() == 0,
    ensures
        user_addition(user) == StepView::Invalid(user.username),
        user_update(user, users, groups) == seq![StepView::Invalid(user.username)],
{
}

/// Where the test accepts all of a sequence, all is kept.
proof fn lemma_keep_all<A>(items: Seq<A>, keep: spec_fn(A) -> bool)
    requires
        forall|i: int| 0 <= i < items.len() ==> keep(#[trigger] items[i]),
    ensures
        items.filter(keep) == items,
    decreases items.len(),
{
    reveal(Seq::filter);
    if items.len() > 0 {
        lemma_keep_all(items.drop_last(), keep);
    }
}

/// Where the test accepts nothing of a sequence, nothing is kept.
proof fn lemma_keep_none<A>(items: Seq<A>, keep: spec_fn(A) -> bool)
    requires
        forall|i: int| 0 <= i < items.len() ==> !keep(#[trigger] items[i]),
    ensures
        items.filter(keep) == Seq::<A>::empty(),
    decreases items.len(),
{
    reveal(Seq::filter);
    if items.len() > 0 {
        lemma_keep_none(items.drop_last(), keep);
    }
}

/// A plan that comes from the comparison can be applied: each of its stages
/// can be decided, whatever the groups are that the user stage goes by.
pub proof fn lemma_plan_can_be_applied(
    sync: LocalRootView,
    system: (Seq<SystemUserView>, Seq<SystemGroupView>),
    stage: Stage,
)
    ensures
        applicable(differ(sync, system), system, stage),
{
    lemma_candidates_observed(sync, system);
}

/// The three looks at an update candidate do not depend on each other: with
/// a group wanted, the call for the primary group is among the steps exactly
/// if the group with the user's primary gid is missing or has another name
/// than the first wanted group, the call for the supplementary groups
/// exactly if the joined names differ, and the call for the uid exactly if
/// one is wanted and differs. The calls come in this order and nothing else
/// comes with them.
pub proof fn lemma_looks_are_independent(
    user: UserView,
    users: Seq<SystemUserView>,
    groups: Seq<SystemGroupView>,
)
    requires
        user.groups.len() > 0,
    ensures
        ({
            let observed = user_named(users, user.username).unwrap();
            let primary = primary_change(user, primary_name(groups, observed.gid));
            let supplementary = supplementary_change(user, groups);
            let uid = uid_change(user, observed.uid);
            &&& calls(user_update(user, users, groups)) == calls(primary + supplementary + uid)
            &&& primary.len() == (if group_with_gid(groups, observed.gid) matches Some(group)
                && group.name == user.groups[0] {
                0nat
            } else {
                1nat
            })
            &&& supplementary.len() == (if join(user.groups.skip(1), ","@) == join(
                memberships(groups, user.username),
                ","@,
            ) {
                0nat
            } else {
                1nat
            })
            &&& uid.len() == (if user.uid matches Some(wanted) && wanted != observed.uid {
                1nat
            } else {
                0nat
            })
        }),
{
    let observed = user_named(users, user.username).unwrap();
    let all = primary_change(user, primary_name(groups, observed.gid)) + supplementary_change(
        user,
        groups,
    ) + uid_change(user, observed.uid);
    if all.len() == 0 {
        let only = seq![StepView::Unchanged(user.username)];
        assert(only.drop_last() =~= Seq::<StepView>::empty());
        assert(calls(only.drop_last()) =~= Seq::<InvocationView>::empty());
        assert(calls(only) =~= Seq::<InvocationView>::empty());
        assert(calls(all) =~= Seq::<InvocationView>::empty());
    }
}

/// A candidate whose primary gid no group of the snapshot carries does not
/// stop the pass: it gets the call that sets its primary group, and the
/// candidates after it are decided as they would be without it.
pub proof fn lemma_missing_primary_group_is_a_difference(
    before: Seq<UserView>,
    user: UserView,
    after: Seq<UserView>,
    users: Seq<SystemUserView>,
    groups: Seq<SystemGroupView>,
)
    requires
        user.groups.len() > 0,
        user_named(users, user.username) matches Some(observed) && group_with_gid(
            groups,
            observed.gid,
        ) is None,
    ensures
        user_update(user, users, groups).len() > 0,
        user_update(user, users, groups)[0] == call(
            Operation::ModifyUser,
            seq!["--gid"@, user.groups[0], user.username],
        ),
        user_updates(before + seq![user] + after, users, groups) == user_updates(
            before,
            users,
            groups,
        ) + user_update(user, users, groups) + user_updates(after, users, groups),
{
    lemma_user_updates_of_both(before, seq![user], users, groups);
    lemma_user_updates_of_both(before + seq![user], after, users, groups);
    assert(seq![user].drop_last() =~= Seq::<UserView>::empty());
    assert(user_updates(seq![user].drop_last(), users, groups) =~= Seq::<StepView>::empty());
    assert(user_updates(seq![user], users, groups) =~= user_update(user, users, groups));
}

/// The steps for two lists of update candidates, one after the other, are
/// the steps for the first list, then those for the second.
pub proof fn lemma_user_updates_of_both(
    first: Seq<UserView>,
    second: Seq<UserView>,
    users: Seq<SystemUserView>,
    groups: Seq<SystemGroupView>,
)
    ensures
        user_updates(first + second, users, groups) == user_updates(first, users, groups)
            + user_updates(second, users, groups),
    decreases second.len(),
{
    if second.len() == 0 {
        assert(first + second =~= first);
    } else {
        lemma_user_updates_of_both(first, second.drop_last(), users, groups);
        assert((first + second).drop_last() =~= first + second.drop_last());
    }
}

/// Whether a wanted group is on the host as wanted: the host has a group of
/// that name, with the wanted gid where one is wanted.
pub open spec fn group_settled(group: GroupView, groups: Seq<SystemGroupView>) -> bool {
    &&& group_named(groups, group.name) is Some
    &&& group.gid matches Some(gid) ==> gid == group_named(groups, group.name).unwrap().gid
}

/// Whether a wanted user is on the host as wanted, as far as a pass can make
/// it so: the host has a user of that name and, unless no group is wanted
/// for it, the group with its primary gid has the name of the first wanted
/// group, the groups that list it are the other wanted groups in their
/// order, and it has the wanted uid where one is wanted.
pub open spec fn user_settled(
    user: UserView,
    users: Seq<SystemUserView>,
    groups: Seq<SystemGroupView>,
) -> bool {
    &&& user_named(users, user.username) is Some
    &&& user.groups.len() > 0 ==> {
        let observed = user_named(users, user.username).unwrap();
        &&& primary_name(groups, observed.gid) == Some(user.groups[0])
        &&& join(user.groups.skip(1), ","@) == join(memberships(groups, user.username), ","@)
        &&& user.uid matches Some(uid) ==> uid == observed.uid
    }
}

/// Whether the host has converged: every wanted user and group is on the
/// host as wanted, and the host has no user or group that is not wanted.
pub open spec fn converged(
    sync: LocalRootView,
    system: (Seq<SystemUserView>, Seq<SystemGroupView>),
) -> bool {
    &&& forall|i: int|
        0 <= i < sync.users.len() ==> user_settled(#[trigger] sync.users[i], system.0, system.1)
    &&& forall|i: int|
        0 <= i < sync.groups.len() ==> group_settled(#[trigger] sync.groups[i], system.1)
    &&& forall|i: int|
        0 <= i < system.0.len() ==> wants_user(sync.users, (#[trigger] system.0[i]).username)
    &&& forall|i: int|
        0 <= i < system.1.len() ==> wants_group(sync.groups, (#[trigger] system.1[i]).name)
}

/// The report on a user that a pass leaves as it is.
pub open spec fn user_left(user: UserView) -> StepView {
    if user.groups.len() == 0 {
        StepView::Invalid(user.username)
    } else {
        StepView::Unchanged(user.username)
    }
}

/// Update candidates that are on the host as wanted are all reported and
/// none is changed.
proof fn lemma_settled_users_are_left(
    update: Seq<UserView>,
    users: Seq<SystemUserView>,
    groups: Seq<SystemGroupView>,
)
    requires
        forall|i: int| 0 <= i < update.len() ==> user_settled(#[trigger] update[i], users, groups),
    ensures
        user_updates(update, users, groups) == Seq::new(
            update.len(),
            |i: int| user_left(update[i]),
        ),
    decreases update.len(),
{
    if update.len() > 0 {
        let before = update.drop_last();
        assert(forall|i: int|
            0 <= i < before.len() ==> user_settled(#[trigger] before[i], users, groups));
        lemma_settled_users_are_left(before, users, groups);
    }
}

/// A pass on a host that has converged changes nothing. The plan has nothing
/// to add and nothing to remove, every wanted user and group is an update
/// candidate, and the steps of the pass are a report for each group, the
/// request to read the groups again, a report for each user, and the
/// password push. This holds whether or not the groups can be read again, as
/// long as what is read is what was read before.
pub proof fn lemma_converged_pass_changes_nothing(
    sync: LocalRootView,
    system: (Seq<SystemUserView>, Seq<SystemGroupView>),
    reread: Option<Seq<SystemGroupView>>,
)
    requires
        converged(sync, system),
        freshest(reread, system.1) == system.1,
    ensures
        ({
            let diff = differ(sync, system);
            let steps = pass(diff, system, sync, reread);
            &&& diff.add == (Seq::<UserView>::empty(), Seq::<GroupView>::empty())
            &&& diff.remove == (Seq::<SystemUserView>::empty(), Seq::<SystemGroupView>::empty())
            &&& diff.update == (sync.users, sync.groups)
            &&& applicable(diff, system, Stage::Groups)
            &&& applicable(diff, system, Stage::Users)
            &&& steps == Seq::new(
                sync.groups.len(),
                |i: int| StepView::Unchanged(sync.groups[i].name),
            ) + seq![StepView::Refresh] + Seq::new(
                sync.users.len(),
                |i: int| user_left(sync.users[i]),
            ) + seq![password_push(sync.users, sync.encrypted)]
            &&& forall|i: int|
                0 <= i < steps.len() ==> !(#[trigger] steps[i]).changes_group()
                    && !steps[i].changes_user()
        }),
{
    let diff = differ(sync, system);
    assert(forall|i: int|
        0 <= i < sync.users.len() ==> user_observed(system.0)(#[trigger] sync.users[i])
            && !user_missing(system.0)(sync.users[i]));
    assert(forall|i: int|
        0 <= i < sync.groups.len() ==> group_observed(system.1)(#[trigger] sync.groups[i])
            && !group_missing(system.1)(sync.groups[i]));
    lemma_keep_all(sync.users, user_observed(system.0));
    lemma_keep_none(sync.users, user_missing(system.0));
    lemma_keep_all(sync.groups, group_observed(system.1));
    lemma_keep_none(sync.groups, group_missing(system.1));
    lemma_keep_none(system.0, user_unwanted(sync.users));
    lemma_keep_none(system.1, group_unwanted(sync.groups));
    lemma_settled_users_are_left(sync.users, system.0, system.1);
    assert(forall|i: int|
        0 <= i < sync.groups.len() ==> group_update(#[trigger] sync.groups[i], system.1)
            == StepView::Unchanged(sync.groups[i].name));
}

/// The calls among the steps, in their order.
pub open spec fn calls(steps: Seq<StepView>) -> Seq<InvocationView>
    decreases steps.len(),
{
    if steps.len() == 0 {
        Seq::empty()
    } else {
        match steps.last() {
            StepView::Invoke(invocation) => calls(steps.drop_last()).push(invocation),
            _ => calls(steps.drop_last()),
        }
    }
}

/// The calls among the steps of two sequences are those of the first, then
/// those of the second.
pub proof fn lemma_calls_of_both(first: Seq<StepView>, second: Seq<StepView>)
    ensures
        calls(first + second) == calls(first) + calls(second),
    decreases second.len(),
{
    if second.len() == 0 {
    } else {
        lemma_calls_of_both(first, second.drop_last());
        assert((first + second).drop_last() =~= first + second.drop_last());
    }
}

/// Tells the wanted users that have a group from those that have none.
pub open spec fn with_groups() -> spec_fn(UserView) -> bool {
    |user: UserView| user.groups.len() > 0
}

/// The wanted users without groups cause no call: the calls of the user
/// stage are those that it would decide if these users were not in the plan.
pub proof fn lemma_users_without_groups_cause_no_call(
    diff: DifferView,
    users: Seq<SystemUserView>,
    groups: Seq<SystemGroupView>,
)
    ensures
        calls(user_updates(diff.update.0, users, groups)) == calls(
            user_updates(diff.update.0.filter(with_groups()), users, groups),
        ),
        calls(user_additions(diff.add.0)) == calls(
            user_additions(diff.add.0.filter(with_groups())),
        ),
        calls(user_steps(diff, users, groups)) == calls(
            user_steps(
                DifferView {
                    add: (diff.add.0.filter(with_groups()), diff.add.1),
                    update: (diff.update.0.filter(with_groups()), diff.update.1),
                    remove: diff.remove,
                },
                users,
                groups,
            ),
        ),
{
    lemma_updates_without_groups(diff.update.0, users, groups);
    lemma_additions_without_groups(diff.add.0);
    let kept = DifferView {
        add: (diff.add.0.filter(with_groups()), diff.add.1),
        update: (diff.update.0.filter(with_groups()), diff.update.1),
        remove: diff.remove,
    };
    lemma_calls_of_both(
        user_removals(diff.remove.0),
        user_updates(diff.update.0, users, groups),
    );
    lemma_calls_of_both(
        user_removals(diff.remove.0) + user_updates(diff.update.0, users, groups),
        user_additions(diff.add.0),
    );
    lemma_calls_of_both(
        user_removals(kept.remove.0),
        user_updates(kept.update.0, users, groups),
    );
    lemma_calls_of_both(
        user_removals(kept.remove.0) + user_updates(kept.update.0, users, groups),
        user_additions(kept.add.0),
    );
}

proof fn lemma_updates_without_groups(
    update: Seq<UserView>,
    users: Seq<SystemUserView>,
    groups: Seq<SystemGroupView>,
)
    ensures
        calls(user_updates(update, users, groups)) == calls(
            user_updates(update.filter(with_groups()), users, groups),
        ),
    decreases update.len(),
{
    reveal(Seq::filter);
    if update.len() > 0 {
        let before = update.drop_last();
        let kept = before.filter(with_groups());
        lemma_updates_without_groups(before, users, groups);
        lemma_calls_of_both(
            user_updates(before, users, groups),
            user_update(update.last(), users, groups),
        );
        if with_groups()(update.last()) {
            assert(kept.push(update.last()).drop_last() =~= kept);
            lemma_calls_of_both(
                user_updates(kept, users, groups),
                user_update(update.last(), users, groups),
            );
        } else {
            let only = seq![StepView::Invalid(update.last().username)];
            assert(calls(only.drop_last()) =~= Seq::<InvocationView>::empty());
        }
    }
}

proof fn lemma_additions_without_groups(add: Seq<UserView>)
    ensures
        calls(user_additions(add)) == calls(user_additions(add.filter(with_groups()))),
    decreases add.len(),
{
    reveal(Seq::filter);
    if add.len() > 0 {
        let before = add.drop_last();
        let kept = before.filter(with_groups());
        lemma_additions_without_groups(before);
        assert(user_additions(add).drop_last() =~= user_additions(before));
        if with_groups()(add.last()) {
            assert(user_additions(kept.push(add.last())).drop_last() =~= user_additions(kept));
        }
    }
}

/// What the password push says of one user: the name, a colon, the password.
pub open spec fn password_entry(user: UserView) -> Seq<char> {
    user.username + ":"@ + user.password
}

/// Whether what the password push says of a user stays on one line: it holds
/// no line feed and does not end with a carriage return.
pub open spec fn fits_on_a_line(user: UserView) -> bool {
    !password_entry(user).contains('\n') && password_entry(user).last() != '\r'
}

/// The lines of the password push for some users are the line of the first
/// and the lines for the others.
proof fn lemma_password_lines_from_first(users: Seq<UserView>)
    requires
        users.len() > 0,
    ensures
        password_lines(users) == password_line(users[0]) + password_lines(users.skip(1)),
    decreases users.len(),
{
    if users.len() == 1 {
        assert(users.drop_last() =~= Seq::<UserView>::empty());
        assert(users.skip(1) =~= Seq::<UserView>::empty());
    } else {
        lemma_password_lines_from_first(users.drop_last());
        assert(users.drop_last().skip(1) =~= users.skip(1).drop_last());
    }
}

proof fn lemma_password_pieces(users: Seq<UserView>)
    requires
        forall|i: int| 0 <= i < users.len() ==> fits_on_a_line(#[trigger] users[i]),
    ensures
        pieces(password_lines(users), '\n') == Seq::new(
            users.len(),
            |i: int| password_entry(users[i]),
        ).push(Seq::empty()),
    decreases users.len(),
{
    reveal_strlit("\n");
    if users.len() > 0 {
        let others = users.skip(1);
        assert(forall|i: int| 0 <= i < others.len() ==> fits_on_a_line(#[trigger] others[i]));
        lemma_password_pieces(others);
        lemma_password_lines_from_first(users);
        lemma_one_piece(password_entry(users[0]), '\n');
        lemma_pieces_of_both(password_entry(users[0]), password_lines(others), '\n');
        assert(password_lines(users) =~= password_entry(users[0]) + seq!['\n'] + password_lines(
            others,
        ));
    }
}

/// The password push holds one line for each wanted user, in the order in
/// which they are wanted, and each line is the name, a colon and the
/// password. This holds where no name and no password breaks its line.
pub proof fn lemma_password_push_has_a_line_for_each_user(users: Seq<UserView>)
    requires
        forall|i: int| 0 <= i < users.len() ==> fits_on_a_line(#[trigger] users[i]),
    ensures
        lines(password_lines(users)) == Seq::new(users.len(), |i: int| password_entry(users[i])),
{
    lemma_password_pieces(users);
    assert(forall|i: int|
        0 <= i < users.len() ==> fits_on_a_line(#[trigger] users[i]) && password_entry(
            users[i],
        ).last() != '\r');
}

} // verus!
