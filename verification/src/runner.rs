//! The reconciliation pass: which calls of the account tools bring the host
//! from the observed state to the wanted one, and in which order.

use crate::consts::{
    ADD_GROUP_CMD, ADD_USER_CMD, REMOVE_GROUP_CMD, REMOVE_USER_CMD, UPDATE_GROUP_CMD,
    UPDATE_PASSWORDS_CMD, UPDATE_USER_CMD,
};
use crate::differ::{groups_observed, users_observed, Differ, DifferView};
use crate::sync_structs::{Group, GroupView, LocalRoot, LocalRootView, User, UserView};
use crate::snapshot::{
    current_memberships, find_group, find_group_by_gid, find_user, group_named, group_with_gid,
    memberships, user_named,
};
use crate::system_parser::{SystemGroup, SystemGroupView, SystemUser, SystemUserView};
use crate::text::{decimal, decimal_string, join, join_from};
use vstd::prelude::*;

verus! {

/// The operations of the account management interface.
#[derive(Debug, Clone, Copy, PartialEq, Eq, Structural)]
pub enum Operation {
    AddGroup,
    RemoveGroup,
    ModifyGroup,
    AddUser,
    RemoveUser,
    ModifyUser,
    SetPasswords,
}

impl Operation {
    /// Whether the operation changes a group.
    pub open spec fn on_group(self) -> bool {
        self is AddGroup || self is RemoveGroup || self is ModifyGroup
    }

    /// Whether the operation changes a single user.
    pub open spec fn on_user(self) -> bool {
        self is AddUser || self is RemoveUser || self is ModifyUser
    }

    /// The tool that performs the operation.
    pub fn program(&self) -> (path: &'static str)
        ensures
            path@ == match *self {
                Operation::AddGroup => ADD_GROUP_CMD@,
                Operation::RemoveGroup => REMOVE_GROUP_CMD@,
                Operation::ModifyGroup => UPDATE_GROUP_CMD@,
                Operation::AddUser => ADD_USER_CMD@,
                Operation::RemoveUser => REMOVE_USER_CMD@,
                Operation::ModifyUser => UPDATE_USER_CMD@,
                Operation::SetPasswords => UPDATE_PASSWORDS_CMD@,
            },
    {
        match self {
            Operation::AddGroup => ADD_GROUP_CMD,
            Operation::RemoveGroup => REMOVE_GROUP_CMD,
            Operation::ModifyGroup => UPDATE_GROUP_CMD,
            Operation::AddUser => ADD_USER_CMD,
            Operation::RemoveUser => REMOVE_USER_CMD,
            Operation::ModifyUser => UPDATE_USER_CMD,
            Operation::SetPasswords => UPDATE_PASSWORDS_CMD,
        }
    }
}

/// One call of an account tool: the operation, its arguments and, for the
/// password push, what the tool reads from its input.
#[derive(Debug, PartialEq, Eq)]
pub struct Invocation {
    pub operation: Operation,
    pub args: Vec<String>,
    pub input: Option<String>,
}

/// What an [`Invocation`] stands for in contracts.
pub struct InvocationView {
    pub operation: Operation,
    pub args: Seq<Seq<char>>,
    pub input: Option<Seq<char>>,
}

impl View for Invocation {
    type V = InvocationView;

    open spec fn view(&self) -> InvocationView {
        InvocationView {
            operation: self.operation,
            args: self.args.deep_view(),
            input: self.input.deep_view(),
        }
    }
}

impl DeepView for Invocation {
    type V = InvocationView;

    open spec fn deep_view(&self) -> InvocationView {
        self@
    }
}

/// One step of a pass, for the caller to carry out or to report.
#[derive(Debug, PartialEq, Eq)]
pub enum Step {
    /// Run the tool and wait for it to end. A failure is reported and the
    /// pass goes on.
    Invoke(Invocation),
    /// Read the groups of the host again.
    Refresh,
    /// The named user has no group and is left alone.
    Invalid(String),
    /// The named user or group is as wanted already.
    Unchanged(String),
}

/// What a [`Step`] stands for in contracts.
pub enum StepView {
    Invoke(InvocationView),
    Refresh,
    Invalid(Seq<char>),
    Unchanged(Seq<char>),
}

impl View for Step {
    type V = StepView;

    open spec fn view(&self) -> StepView {
        match self {
            Step::Invoke(invocation) => StepView::Invoke(invocation@),
            Step::Refresh => StepView::Refresh,
            Step::Invalid(name) => StepView::Invalid(name@),
            Step::Unchanged(name) => StepView::Unchanged(name@),
        }
    }
}

impl DeepView for Step {
    type V = StepView;

    open spec fn deep_view(&self) -> StepView {
        self@
    }
}

impl StepView {
    /// Whether the step calls a tool that changes a group.
    pub open spec fn changes_group(self) -> bool {
        self matches StepView::Invoke(invocation) && invocation.operation.on_group()
    }

    /// Whether the step calls a tool that changes a single user.
    pub open spec fn changes_user(self) -> bool {
        self matches StepView::Invoke(invocation) && invocation.operation.on_user()
    }

    /// Whether the step is a password push.
    pub open spec fn sets_passwords(self) -> bool {
        self matches StepView::Invoke(invocation) && invocation.operation is SetPasswords
    }
}

/// The step that runs `operation` with `args` and no input.
pub open spec fn call(operation: Operation, args: Seq<Seq<char>>) -> StepView {
    StepView::Invoke(InvocationView { operation, args, input: None })
}

fn invoke(operation: Operation, args: Vec<String>) -> (step: Step)
    ensures
        step@ == call(operation, args.deep_view()),
{
    Step::Invoke(Invocation { operation, args, input: None })
}

/// The name of the first group of the snapshot with the given gid, if there
/// is such a group.
pub open spec fn primary_name(groups: Seq<SystemGroupView>, gid: u32) -> Option<Seq<char>> {
    match group_with_gid(groups, gid) {
        Some(group) => Some(group.name),
        None => None,
    }
}

/// The call that makes the first wanted group the primary group of the user,
/// where the group that carries the user's primary gid has another name.
///
/// Where the snapshot holds no group with the user's primary gid, be it that
/// the group lies below the floor or that it was just removed, the primary
/// group has no name that could be the wanted one: this counts as a
/// difference, and the call is issued like any other.
pub open spec fn primary_change(user: UserView, current: Option<Seq<char>>) -> Seq<StepView> {
    if current != Some(user.groups[0]) {
        seq![call(Operation::ModifyUser, seq!["--gid"@, user.groups[0], user.username])]
    } else {
        Seq::empty()
    }
}

/// The call that replaces the supplementary groups of the user by the wanted
/// ones. The wanted groups after the first, joined by commas, are held
/// against the names of the groups that list the user, joined in the order of
/// the snapshot: another order of the same names counts as a difference.
pub open spec fn supplementary_change(user: UserView, groups: Seq<SystemGroupView>) -> Seq<
    StepView,
> {
    let wanted = join(user.groups.skip(1), ","@);
    if wanted != join(memberships(groups, user.username), ","@) {
        seq![call(Operation::ModifyUser, seq!["--groups"@, wanted, user.username])]
    } else {
        Seq::empty()
    }
}

/// The call that gives the user the wanted uid, where one is wanted and the
/// user has another.
pub open spec fn uid_change(user: UserView, current: u32) -> Seq<StepView> {
    match user.uid {
        Some(uid) if uid != current => seq![
            call(
                Operation::ModifyUser,
                seq!["--non-unique"@, "--uid"@, decimal(uid as nat), user.username],
            ),
        ],
        _ => Seq::empty(),
    }
}

/// The steps for one update candidate, held against the user of its name. A
/// candidate without groups is left alone. Otherwise the primary group, the
/// supplementary groups and the uid are looked at one after the other, each
/// by itself and each with a call of its own; where none of them differs,
/// the user is reported as unchanged.
pub open spec fn user_update(
    user: UserView,
    users: Seq<SystemUserView>,
    groups: Seq<SystemGroupView>,
) -> Seq<StepView> {
    if user.groups.len() == 0 {
        seq![StepView::Invalid(user.username)]
    } else {
        let observed = user_named(users, user.username).unwrap();
        let calls = primary_change(user, primary_name(groups, observed.gid))
            + supplementary_change(user, groups) + uid_change(user, observed.uid);
        if calls.len() == 0 {
            seq![StepView::Unchanged(user.username)]
        } else {
            calls
        }
    }
}

/// The steps for the update candidates, one candidate after the other.
pub open spec fn user_updates(
    update: Seq<UserView>,
    users: Seq<SystemUserView>,
    groups: Seq<SystemGroupView>,
) -> Seq<StepView>
    decreases update.len(),
{
    if update.len() == 0 {
        Seq::empty()
    } else {
        user_updates(update.drop_last(), users, groups) + user_update(update.last(), users, groups)
    }
}

fn update_one_user(
    user: &User,
    system_users: &Vec<SystemUser>,
    system_groups: &Vec<SystemGroup>,
    steps: &mut Vec<Step>,
)
    requires
        user_named(system_users.deep_view(), user@.username) is Some,
    ensures
        final(steps).deep_view() == old(steps).deep_view() + user_update(
            user@,
            system_users.deep_view(),
            system_groups.deep_view(),
        ),
{
    if user.groups.len() < 1 {
        steps.push(Step::Invalid(user.username.clone()));
        return ;
    }
    let system_user = find_user(system_users, &user.username).unwrap();
    let current_primary = find_group_by_gid(system_groups, system_user.gid);
    let mut change = false;

    let sync_primary = &user.groups[0];
    let primary_differs = match current_primary {
        Some(group) => group.name != *sync_primary,
        None => true,
    };
    if primary_differs {
        change = true;
        let mut args: Vec<String> = Vec::new();
        args.push("--gid".to_owned());
        args.push(sync_primary.clone());
        args.push(user.username.clone());
        assert(args.deep_view() =~= seq!["--gid"@, user@.groups[0], user@.username]);
        steps.push(invoke(Operation::ModifyUser, args));
    }

    let current_supp = current_memberships(system_groups, &user.username);
    let current_supp_str = join_from(&current_supp, 0, ",");
    let sync_supp = join_from(&user.groups, 1, ",");
    assert(current_supp.deep_view().skip(0) =~= current_supp.deep_view());
    if sync_supp != current_supp_str {
        change = true;
        let mut args: Vec<String> = Vec::new();
        args.push("--groups".to_owned());
        args.push(sync_supp);
        args.push(user.username.clone());
        assert(args.deep_view() =~= seq![
            "--groups"@,
            join(user@.groups.skip(1), ","@),
            user@.username,
        ]);
        steps.push(invoke(Operation::ModifyUser, args));
    }

    if let Some(uid) = user.uid {
        if uid != system_user.uid {
            change = true;
            let mut args: Vec<String> = Vec::new();
            args.push("--non-unique".to_owned());
            args.push("--uid".to_owned());
            args.push(decimal_string(uid));
            args.push(user.username.clone());
            assert(args.deep_view() =~= seq![
                "--non-unique"@,
                "--uid"@,
                decimal(uid as nat),
                user@.username,
            ]);
            steps.push(invoke(Operation::ModifyUser, args));
        }
    }

    if !change {
        steps.push(Step::Unchanged(user.username.clone()));
    }
}

/// Holds each update candidate against the user of the same name and decides
/// which calls change that user. `system_groups` are the groups as they are
/// when the users are changed. A candidate whose primary gid none of them
/// carries is decided like the others: its primary group counts as another
/// than the wanted one.
pub fn update_user(
    update_users: &Vec<User>,
    system_users: &Vec<SystemUser>,
    system_groups: &Vec<SystemGroup>,
) -> (steps: Vec<Step>)
    requires
        users_observed(update_users.deep_view(), system_users.deep_view()),
    ensures
        steps.deep_view() == user_updates(
            update_users.deep_view(),
            system_users.deep_view(),
            system_groups.deep_view(),
        ),
{
    let ghost update = update_users.deep_view();
    let ghost users = system_users.deep_view();
    let ghost groups = system_groups.deep_view();
    let mut steps: Vec<Step> = Vec::new();
    let mut i: usize = 0;
    while i < update_users.len()
        invariant
            i <= update_users.len(),
            update == update_users.deep_view(),
            users == system_users.deep_view(),
            groups == system_groups.deep_view(),
            users_observed(update, users),
            steps.deep_view() == user_updates(update.take(i as int), users, groups),
        decreases update_users.len() - i,
    {
        assert(update.take(i + 1).drop_last() =~= update.take(i as int));
        assert(user_named(users, update[i as int].username) is Some);
        update_one_user(&update_users[i], system_users, system_groups, &mut steps);
        i = i + 1;
    }
    assert(update.take(update_users.len() as int) =~= update);
    steps
}

/// The call that removes a user of the host.
pub open spec fn user_removal(user: SystemUserView) -> StepView {
    call(Operation::RemoveUser, seq![user.username])
}

/// The calls that remove the given users, one user after the other.
pub open spec fn user_removals(remove: Seq<SystemUserView>) -> Seq<StepView> {
    Seq::new(remove.len(), |i: int| user_removal(remove[i]))
}

/// Decides the calls that remove users from the host.
pub fn delete_user(remove_users: &Vec<SystemUser>) -> (steps: Vec<Step>)
    ensures
        steps.deep_view() == user_removals(remove_users.deep_view()),
{
    let mut steps: Vec<Step> = Vec::new();
    let mut i: usize = 0;
    while i < remove_users.len()
        invariant
            i <= remove_users.len(),
            steps.len() == i,
            forall|k: int| 0 <= k < i ==> steps[k]@ == user_removal(remove_users[k]@),
        decreases remove_users.len() - i,
    {
        let mut args: Vec<String> = Vec::new();
        args.push(remove_users[i].username.clone());
        assert(args.deep_view() =~= seq![remove_users[i as int]@.username]);
        steps.push(invoke(Operation::RemoveUser, args));
        i = i + 1;
    }
    steps
}

/// The call that removes a group of the host, whatever members it still has.
pub open spec fn group_removal(group: SystemGroupView) -> StepView {
    call(Operation::RemoveGroup, seq!["-f"@, group.name])
}

/// The calls that remove the given groups, one group after the other.
pub open spec fn group_removals(remove: Seq<SystemGroupView>) -> Seq<StepView> {
    Seq::new(remove.len(), |i: int| group_removal(remove[i]))
}

/// Decides the calls that remove groups from the host.
pub fn delete_group(remove_groups: &Vec<SystemGroup>) -> (steps: Vec<Step>)
    ensures
        steps.deep_view() == group_removals(remove_groups.deep_view()),
{
    let mut steps: Vec<Step> = Vec::new();
    let mut i: usize = 0;
    while i < remove_groups.len()
        invariant
            i <= remove_groups.len(),
            steps.len() == i,
            forall|k: int| 0 <= k < i ==> steps[k]@ == group_removal(remove_groups[k]@),
        decreases remove_groups.len() - i,
    {
        let mut args: Vec<String> = Vec::new();
        args.push("-f".to_owned());
        args.push(remove_groups[i].name.clone());
        assert(args.deep_view() =~= seq!["-f"@, remove_groups[i as int]@.name]);
        steps.push(invoke(Operation::RemoveGroup, args));
        i = i + 1;
    }
    steps
}

/// The arguments that create a user: with a home directory and without a
/// group of its own, the first wanted group as primary group, the others, if
/// any, as supplementary groups, and the wanted uid, if any, whether or not
/// another user has it.
pub open spec fn user_addition_args(user: UserView) -> Seq<Seq<char>> {
    seq!["--create-home"@, "--no-user-group"@, "--gid"@, user.groups[0]] + (if user.groups.len()
        > 1 {
        seq!["--groups"@, join(user.groups.skip(1), ","@)]
    } else {
        Seq::empty()
    }) + (match user.uid {
        Some(uid) => seq!["--non-unique"@, "--uid"@, decimal(uid as nat)],
        None => Seq::empty(),
    }) + seq![user.username]
}

/// The step for one user to add: the call that creates it, or, for a user
/// without groups, the report that it is left alone.
pub open spec fn user_addition(user: UserView) -> StepView {
    if user.groups.len() == 0 {
        StepView::Invalid(user.username)
    } else {
        call(Operation::AddUser, user_addition_args(user))
    }
}

/// The steps for the users to add, one user after the other.
pub open spec fn user_additions(add: Seq<UserView>) -> Seq<StepView> {
    Seq::new(add.len(), |i: int| user_addition(add[i]))
}

fn add_one_user(user: &User) -> (step: Step)
    ensures
        step@ == user_addition(user@),
{
    if user.groups.len() < 1 {
        return Step::Invalid(user.username.clone());
    }
    let mut args: Vec<String> = Vec::new();
    args.push("--create-home".to_owned());
    args.push("--no-user-group".to_owned());
    let primary = &user.groups[0];
    args.push("--gid".to_owned());
    args.push(primary.clone());

    if user.groups.len() > 1 {
        let groups_str = join_from(&user.groups, 1, ",");
        args.push("--groups".to_owned());
        args.push(groups_str);
    }

    if let Some(uid) = user.uid {
        args.push("--non-unique".to_owned());
        args.push("--uid".to_owned());
        args.push(decimal_string(uid));
    }

    args.push(user.username.clone());
    assert(args.deep_view() =~= user_addition_args(user@));
    invoke(Operation::AddUser, args)
}

/// Decides the calls that create the users to add. A user without groups is
/// reported and not created.
pub fn add_user(add_users: &Vec<User>) -> (steps: Vec<Step>)
    ensures
        steps.deep_view() == user_additions(add_users.deep_view()),
{
    let mut steps: Vec<Step> = Vec::new();
    let mut i: usize = 0;
    while i < add_users.len()
        invariant
            i <= add_users.len(),
            steps.len() == i,
            forall|k: int| 0 <= k < i ==> steps[k]@ == user_addition(add_users[k]@),
        decreases add_users.len() - i,
    {
        steps.push(add_one_user(&add_users[i]));
        i = i + 1;
    }
    steps
}

/// The arguments that create a group even where the name is taken: with the
/// wanted gid, if any, whether or not another group has it.
pub open spec fn group_addition_args(group: GroupView) -> Seq<Seq<char>> {
    match group.gid {
        Some(gid) => seq![
            "--force"@,
            "--non-unique"@,
            "--gid"@,
            decimal(gid as nat),
            group.name,
        ],
        None => seq!["--force"@, group.name],
    }
}

/// The call that creates a group.
pub open spec fn group_addition(group: GroupView) -> StepView {
    call(Operation::AddGroup, group_addition_args(group))
}

/// The calls that create the groups to add, one group after the other.
pub open spec fn group_additions(add: Seq<GroupView>) -> Seq<StepView> {
    Seq::new(add.len(), |i: int| group_addition(add[i]))
}

/// Decides the calls that create the groups to add.
pub fn add_group(add_groups: &Vec<Group>) -> (steps: Vec<Step>)
    ensures
        steps.deep_view() == group_additions(add_groups.deep_view()),
{
    let mut steps: Vec<Step> = Vec::new();
    let mut i: usize = 0;
    while i < add_groups.len()
        invariant
            i <= add_groups.len(),
            steps.len() == i,
            forall|k: int| 0 <= k < i ==> steps[k]@ == group_addition(add_groups[k]@),
        decreases add_groups.len() - i,
    {
        let group = &add_groups[i];
        let mut args: Vec<String> = Vec::new();
        args.push("--force".to_owned());
        if let Some(gid) = group.gid {
            args.push("--non-unique".to_owned());
            args.push("--gid".to_owned());
            args.push(decimal_string(gid));
        }
        args.push(group.name.clone());
        assert(args.deep_view() =~= group_addition_args(group@));
        steps.push(invoke(Operation::AddGroup, args));
        i = i + 1;
    }
    steps
}

/// The step for one group to look at: the call that gives it the wanted gid,
/// where one is wanted and the group of that name on the host has another,
/// else the report that it is unchanged.
pub open spec fn group_update(group: GroupView, groups: Seq<SystemGroupView>) -> StepView {
    match group.gid {
        Some(gid) if gid != group_named(groups, group.name).unwrap().gid => call(
            Operation::ModifyGroup,
            seq!["--non-unique"@, "--gid"@, decimal(gid as nat), group.name],
        ),
        _ => StepView::Unchanged(group.name),
    }
}

/// The steps for the groups to look at, one group after the other.
pub open spec fn group_updates(update: Seq<GroupView>, groups: Seq<SystemGroupView>) -> Seq<
    StepView,
> {
    Seq::new(update.len(), |i: int| group_update(update[i], groups))
}

/// Holds each update candidate against the group of the same name and
/// decides whether a call changes its gid.
pub fn update_group(update_groups: &Vec<Group>, system_groups: &Vec<SystemGroup>) -> (steps: Vec<
    Step,
>)
    requires
        groups_observed(update_groups.deep_view(), system_groups.deep_view()),
    ensures
        steps.deep_view() == group_updates(update_groups.deep_view(), system_groups.deep_view()),
{
    let ghost update = update_groups.deep_view();
    let ghost groups = system_groups.deep_view();
    let mut steps: Vec<Step> = Vec::new();
    let mut i: usize = 0;
    while i < update_groups.len()
        invariant
            i <= update_groups.len(),
            update == update_groups.deep_view(),
            groups == system_groups.deep_view(),
            groups_observed(update, groups),
            steps.len() == i,
            forall|k: int| 0 <= k < i ==> steps[k]@ == group_update(update[k], groups),
        decreases update_groups.len() - i,
    {
        let group = &update_groups[i];
        assert(group@ == update[i as int]);
        let system_group = find_group(system_groups, &group.name).unwrap();
        let mut change = false;
        if let Some(gid) = group.gid {
            if system_group.gid != gid {
                change = true;
                let mut args: Vec<String> = Vec::new();
                args.push("--non-unique".to_owned());
                args.push("--gid".to_owned());
                args.push(decimal_string(gid));
                args.push(group.name.clone());
                assert(args.deep_view() =~= seq![
                    "--non-unique"@,
                    "--gid"@,
                    decimal(gid as nat),
                    group@.name,
                ]);
                steps.push(invoke(Operation::ModifyGroup, args));
            }
        }
        if !change {
            steps.push(Step::Unchanged(group.name.clone()));
        }
        i = i + 1;
    }
    steps
}

/// The line of one user in the password push.
pub open spec fn password_line(user: UserView) -> Seq<char> {
    user.username + ":"@ + user.password + "\n"@
}

/// The lines of the password push: one for each user, in the order given.
pub open spec fn password_lines(users: Seq<UserView>) -> Seq<char>
    decreases users.len(),
{
    if users.len() == 0 {
        Seq::empty()
    } else {
        password_lines(users.drop_last()) + password_line(users.last())
    }
}

/// The password push: one call that sets the passwords of all the given
/// users. With `encrypted` the tool takes the passwords as hashed already.
pub open spec fn password_push(users: Seq<UserView>, encrypted: bool) -> StepView {
    StepView::Invoke(
        InvocationView {
            operation: Operation::SetPasswords,
            args: if encrypted {
                seq!["--encrypted"@]
            } else {
                Seq::empty()
            },
            input: Some(password_lines(users)),
        },
    )
}

/// Decides the call that sets the passwords of all wanted users at once.
pub fn apply_passwords(sync: &Vec<User>, encrypted: &bool) -> (step: Step)
    ensures
        step@ == password_push(sync.deep_view(), *encrypted),
{
    let ghost users = sync.deep_view();
    let mut stdin_buf = String::new();
    let mut i: usize = 0;
    while i < sync.len()
        invariant
            i <= sync.len(),
            users == sync.deep_view(),
            stdin_buf@ == password_lines(users.take(i as int)),
        decreases sync.len() - i,
    {
        assert(users.take(i + 1).drop_last() =~= users.take(i as int));
        stdin_buf.append(sync[i].username.as_str());
        stdin_buf.append(":");
        stdin_buf.append(sync[i].password.as_str());
        stdin_buf.append("\n");
        i = i + 1;
    }
    assert(users.take(sync.len() as int) =~= users);

    let mut args: Vec<String> = Vec::new();
    if *encrypted {
        args.push("--encrypted".to_owned());
    }
    let ghost wanted: Seq<Seq<char>> = if *encrypted {
        seq!["--encrypted"@]
    } else {
        Seq::empty()
    };
    assert(args.deep_view() =~= wanted);
    Step::Invoke(
        Invocation { operation: Operation::SetPasswords, args, input: Some(stdin_buf) },
    )
}

/// Where a pass stands. A pass goes through the stages in this order.
#[derive(Debug, Clone, Copy, PartialEq, Eq, Structural)]
pub enum Stage {
    /// The groups are changed: removed, updated, added.
    Groups,
    /// The users are changed: removed, updated, added.
    Users,
    /// The passwords of all wanted users are set.
    Passwords,
    /// Nothing is left to do.
    Done,
}

impl Stage {
    /// The stage that follows.
    pub open spec fn next(self) -> Stage {
        match self {
            Stage::Groups => Stage::Users,
            Stage::Users => Stage::Passwords,
            Stage::Passwords => Stage::Done,
            Stage::Done => Stage::Done,
        }
    }
}

/// The groups that the user stage goes by: those read after the groups were
/// changed or, where that reading failed, those read before.
pub open spec fn freshest(
    reread: Option<Seq<SystemGroupView>>,
    before: Seq<SystemGroupView>,
) -> Seq<SystemGroupView> {
    match reread {
        Some(groups) => groups,
        None => before,
    }
}

/// The steps of the group stage: the groups to remove, then those to update,
/// then those to add, and at the end the request to read the groups again.
pub open spec fn group_steps(diff: DifferView, groups: Seq<SystemGroupView>) -> Seq<StepView> {
    group_removals(diff.remove.1) + group_updates(diff.update.1, groups) + group_additions(
        diff.add.1,
    ) + seq![StepView::Refresh]
}

/// The steps of the user stage: the users to remove, then those to update,
/// then those to add.
pub open spec fn user_steps(
    diff: DifferView,
    users: Seq<SystemUserView>,
    groups: Seq<SystemGroupView>,
) -> Seq<StepView> {
    user_removals(diff.remove.0) + user_updates(diff.update.0, users, groups) + user_additions(
        diff.add.0,
    )
}

/// The steps of one stage of a pass.
pub open spec fn stage_steps(
    diff: DifferView,
    system: (Seq<SystemUserView>, Seq<SystemGroupView>),
    sync: LocalRootView,
    stage: Stage,
    reread: Option<Seq<SystemGroupView>>,
) -> Seq<StepView> {
    match stage {
        Stage::Groups => group_steps(diff, system.1),
        Stage::Users => user_steps(diff, system.0, freshest(reread, system.1)),
        Stage::Passwords => seq![password_push(sync.users, sync.encrypted)],
        Stage::Done => Seq::empty(),
    }
}

/// Whether a stage can be decided: the host has a group or a user of the name
/// of each of its update candidates. A plan that comes from the comparison
/// with `system` is such a plan.
pub open spec fn applicable(
    diff: DifferView,
    system: (Seq<SystemUserView>, Seq<SystemGroupView>),
    stage: Stage,
) -> bool {
    match stage {
        Stage::Groups => groups_observed(diff.update.1, system.1),
        Stage::Users => users_observed(diff.update.0, system.0),
        _ => true,
    }
}

fn can_update_groups(update_groups: &Vec<Group>, system_groups: &Vec<SystemGroup>) -> (ok: bool)
    ensures
        ok == groups_observed(update_groups.deep_view(), system_groups.deep_view()),
{
    let ghost update = update_groups.deep_view();
    let mut i: usize = 0;
    while i < update_groups.len()
        invariant
            i <= update_groups.len(),
            update == update_groups.deep_view(),
            forall|k: int|
                0 <= k < i ==> group_named(system_groups.deep_view(), (#[trigger] update[k]).name)
                    is Some,
        decreases update_groups.len() - i,
    {
        assert(update_groups[i as int]@ == update[i as int]);
        if find_group(system_groups, &update_groups[i].name).is_none() {
            return false;
        }
        i = i + 1;
    }
    true
}

fn can_update_users(update_users: &Vec<User>, system_users: &Vec<SystemUser>) -> (ok: bool)
    ensures
        ok == users_observed(update_users.deep_view(), system_users.deep_view()),
{
    let ghost update = update_users.deep_view();
    let mut i: usize = 0;
    while i < update_users.len()
        invariant
            i <= update_users.len(),
            update == update_users.deep_view(),
            forall|k: int|
                0 <= k < i ==> user_named(system_users.deep_view(), (#[trigger] update[k]).username)
                    is Some,
        decreases update_users.len() - i,
    {
        assert(update_users[i as int]@ == update[i as int]);
        if find_user(system_users, &update_users[i].username).is_none() {
            return false;
        }
        i = i + 1;
    }
    true
}

/// Tells whether a stage can be decided, that is, whether [`apply_diff`] may
/// be called for it. For a plan that [`Differ::new`] made from `system` the
/// answer is yes for every stage.
pub fn can_apply(diff: &Differ, system: &(Vec<SystemUser>, Vec<SystemGroup>), stage: Stage) -> (ok:
    bool)
    ensures
        ok == applicable(diff@, system.deep_view(), stage),
{
    match stage {
        Stage::Groups => can_update_groups(&diff.update.1, &system.1),
        Stage::Users => can_update_users(&diff.update.0, &system.0),
        _ => true,
    }
}

fn concat(steps: &mut Vec<Step>, more: Vec<Step>)
    ensures
        final(steps).deep_view() == old(steps).deep_view() + more.deep_view(),
{
    let mut more = more;
    steps.append(&mut more);
}

/// Decides the steps of one stage of a pass and names the stage that follows.
///
/// A pass starts at [`Stage::Groups`] and ends at [`Stage::Done`]. The caller
/// carries out the steps of a stage, in their order and each to its end,
/// before it asks for the next stage. The group stage ends with
/// [`Step::Refresh`]: what the caller then reads is `reread` for the user
/// stage, `None` where the reading failed; the user stage then goes by the
/// groups of `system`. In the other stages `reread` is not looked at. How
/// the calls of a stage went is no argument: the steps do not depend on it.
pub fn apply_diff(
    diff: &Differ,
    system: &(Vec<SystemUser>, Vec<SystemGroup>),
    sync: &LocalRoot,
    stage: Stage,
    reread: &Option<Vec<SystemGroup>>,
) -> (next: (Stage, Vec<Step>))
    requires
        applicable(diff@, system.deep_view(), stage),
    ensures
        next.0 == stage.next(),
        next.1.deep_view() == stage_steps(
            diff@,
            system.deep_view(),
            sync@,
            stage,
            reread.deep_view(),
        ),
{
    match stage {
        Stage::Groups => {
            let mut steps = delete_group(&diff.remove.1);
            concat(&mut steps, update_group(&diff.update.1, &system.1));
            concat(&mut steps, add_group(&diff.add.1));
            steps.push(Step::Refresh);
            (Stage::Users, steps)
        },
        Stage::Users => {
            let system_groups = match reread {
                Some(groups) => groups,
                None => &system.1,
            };
            let mut steps = delete_user(&diff.remove.0);
            concat(&mut steps, update_user(&diff.update.0, &system.0, system_groups));
            concat(&mut steps, add_user(&diff.add.0));
            (Stage::Passwords, steps)
        },
        Stage::Passwords => {
            let mut steps: Vec<Step> = Vec::new();
            steps.push(apply_passwords(&sync.users, &sync.encrypted));
            (Stage::Done, steps)
        },
        Stage::Done => {
            let steps: Vec<Step> = Vec::new();
            (Stage::Done, steps)
        },
    }
}

} // verus!
