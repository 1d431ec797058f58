use user_sync::differ::Differ;
use user_sync::runner::{
    add_group, add_user, apply_diff, apply_passwords, can_apply, delete_group, delete_user,
    update_group, update_user, Invocation, Operation, Stage, Step,
};
use user_sync::sync_structs::{Group, LocalRoot, User};
use user_sync::system_parser::{SystemGroup, SystemUser};

fn strings(items: &[&str]) -> Vec<String> {
    items.iter().map(|item| item.to_string()).collect()
}

fn user(name: &str, uid: Option<u32>, password: &str, groups: &[&str]) -> User {
    User { username: name.to_string(), uid, password: password.to_string(), groups: strings(groups) }
}

fn group(name: &str, gid: Option<u32>) -> Group {
    Group { name: name.to_string(), gid }
}

fn system_user(name: &str, uid: u32, gid: u32) -> SystemUser {
    SystemUser { username: name.to_string(), hash: "x".to_string(), uid, gid }
}

fn system_group(name: &str, gid: u32, users: &[&str]) -> SystemGroup {
    SystemGroup { name: name.to_string(), gid, users: strings(users) }
}

fn call(operation: Operation, args: &[&str]) -> Step {
    Step::Invoke(Invocation { operation, args: strings(args), input: None })
}

fn run_pass(
    sync: &LocalRoot,
    system: &(Vec<SystemUser>, Vec<SystemGroup>),
    reread: Option<Vec<SystemGroup>>,
) -> Vec<Step> {
    let diff = Differ::new(sync, system);
    let mut steps = Vec::new();
    let mut stage = Stage::Groups;
    while stage != Stage::Done {
        assert!(can_apply(&diff, system, stage));
        let (next, more) = apply_diff(&diff, system, sync, stage, &reread);
        steps.extend(more);
        stage = next;
    }
    steps
}

#[test]
fn tools_of_the_operations() {
    assert_eq!(Operation::AddGroup.program(), "/usr/sbin/groupadd");
    assert_eq!(Operation::RemoveGroup.program(), "/usr/sbin/groupdel");
    assert_eq!(Operation::ModifyGroup.program(), "/usr/sbin/groupmod");
    assert_eq!(Operation::AddUser.program(), "/usr/sbin/useradd");
    assert_eq!(Operation::RemoveUser.program(), "/usr/sbin/userdel");
    assert_eq!(Operation::ModifyUser.program(), "/usr/sbin/usermod");
    assert_eq!(Operation::SetPasswords.program(), "/usr/sbin/chpasswd");
}

#[test]
fn users_are_removed_by_name() {
    let steps = delete_user(&vec![system_user("carol", 1003, 1000), system_user("dave", 1004, 1000)]);
    assert_eq!(
        steps,
        vec![call(Operation::RemoveUser, &["carol"]), call(Operation::RemoveUser, &["dave"])]
    );
}

#[test]
fn groups_are_removed_by_force() {
    let steps = delete_group(&vec![system_group("temp", 3000, &["alice", "bob"])]);
    assert_eq!(steps, vec![call(Operation::RemoveGroup, &["-f", "temp"])]);
}

#[test]
fn nothing_to_remove_gives_no_step() {
    assert_eq!(delete_user(&vec![]), vec![]);
    assert_eq!(delete_group(&vec![]), vec![]);
}

#[test]
fn group_is_added_with_its_gid() {
    let steps = add_group(&vec![group("staff", Some(2000))]);
    assert_eq!(
        steps,
        vec![call(Operation::AddGroup, &["--force", "--non-unique", "--gid", "2000", "staff"])]
    );
}

#[test]
fn group_without_gid_is_added_by_name_alone() {
    let steps = add_group(&vec![group("staff", None), group("wheel", Some(0))]);
    assert_eq!(
        steps,
        vec![
            call(Operation::AddGroup, &["--force", "staff"]),
            call(Operation::AddGroup, &["--force", "--non-unique", "--gid", "0", "wheel"]),
        ]
    );
}

#[test]
fn user_is_added_with_primary_group_and_uid() {
    let steps = add_user(&vec![user("alice", Some(2001), "H1", &["staff"])]);
    assert_eq!(
        steps,
        vec![call(
            Operation::AddUser,
            &[
                "--create-home",
                "--no-user-group",
                "--gid",
                "staff",
                "--non-unique",
                "--uid",
                "2001",
                "alice"
            ]
        )]
    );
}

#[test]
fn user_is_added_with_supplementary_groups() {
    let steps = add_user(&vec![user("bob", None, "pw", &["staff", "wheel", "audio"])]);
    assert_eq!(
        steps,
        vec![call(
            Operation::AddUser,
            &["--create-home", "--no-user-group", "--gid", "staff", "--groups", "wheel,audio", "bob"]
        )]
    );
}

#[test]
fn user_without_groups_is_not_added() {
    let steps = add_user(&vec![
        user("ghost", Some(2002), "pw", &[]),
        user("alice", None, "pw", &["staff"]),
    ]);
    assert_eq!(
        steps,
        vec![
            Step::Invalid("ghost".to_string()),
            call(Operation::AddUser, &["--create-home", "--no-user-group", "--gid", "staff", "alice"]),
        ]
    );
}

#[test]
fn group_with_another_gid_is_changed() {
    let steps = update_group(&vec![group("staff", Some(2000))], &vec![system_group("staff", 1500, &[])]);
    assert_eq!(
        steps,
        vec![call(Operation::ModifyGroup, &["--non-unique", "--gid", "2000", "staff"])]
    );
}

#[test]
fn group_with_the_wanted_gid_is_unchanged() {
    let steps = update_group(&vec![group("staff", Some(2000))], &vec![system_group("staff", 2000, &[])]);
    assert_eq!(steps, vec![Step::Unchanged("staff".to_string())]);
}

#[test]
fn group_without_wanted_gid_is_never_changed() {
    let steps = update_group(&vec![group("staff", None)], &vec![system_group("staff", 1234, &["a"])]);
    assert_eq!(steps, vec![Step::Unchanged("staff".to_string())]);
}

#[test]
fn group_is_held_against_the_group_of_its_name() {
    let observed = vec![system_group("wheel", 2000, &[]), system_group("staff", 2001, &[])];
    let steps = update_group(&vec![group("staff", Some(2000)), group("wheel", Some(2000))], &observed);
    assert_eq!(
        steps,
        vec![
            call(Operation::ModifyGroup, &["--non-unique", "--gid", "2000", "staff"]),
            Step::Unchanged("wheel".to_string()),
        ]
    );
}

#[test]
fn user_as_wanted_is_unchanged() {
    let steps = update_user(
        &vec![user("alice", Some(2001), "H1", &["staff"])],
        &vec![system_user("alice", 2001, 2000)],
        &vec![system_group("staff", 2000, &[])],
    );
    assert_eq!(steps, vec![Step::Unchanged("alice".to_string())]);
}

#[test]
fn user_with_another_primary_group_is_changed() {
    let steps = update_user(
        &vec![user("alice", None, "H1", &["staff"])],
        &vec![system_user("alice", 2001, 1000)],
        &vec![system_group("users", 1000, &[]), system_group("staff", 2000, &[])],
    );
    assert_eq!(steps, vec![call(Operation::ModifyUser, &["--gid", "staff", "alice"])]);
}

#[test]
fn user_with_other_supplementary_groups_gets_them_replaced() {
    let steps = update_user(
        &vec![user("alice", None, "H1", &["staff", "wheel", "audio"])],
        &vec![system_user("alice", 2001, 2000)],
        &vec![
            system_group("staff", 2000, &[]),
            system_group("wheel", 2001, &["alice"]),
            system_group("audio", 2002, &["bob"]),
        ],
    );
    assert_eq!(steps, vec![call(Operation::ModifyUser, &["--groups", "wheel,audio", "alice"])]);
}

#[test]
fn user_leaves_supplementary_groups_that_are_not_wanted() {
    let steps = update_user(
        &vec![user("alice", None, "H1", &["staff"])],
        &vec![system_user("alice", 2001, 2000)],
        &vec![system_group("staff", 2000, &[]), system_group("wheel", 2001, &["bob", "alice"])],
    );
    assert_eq!(steps, vec![call(Operation::ModifyUser, &["--groups", "", "alice"])]);
}

#[test]
fn supplementary_groups_in_another_order_count_as_different() {
    let observed_groups = vec![
        system_group("staff", 2000, &[]),
        system_group("audio", 2002, &["alice"]),
        system_group("wheel", 2001, &["alice"]),
    ];
    let observed_users = vec![system_user("alice", 2001, 2000)];
    let reordered = update_user(
        &vec![user("alice", None, "H1", &["staff", "wheel", "audio"])],
        &observed_users,
        &observed_groups,
    );
    assert_eq!(reordered, vec![call(Operation::ModifyUser, &["--groups", "wheel,audio", "alice"])]);
    let same_order = update_user(
        &vec![user("alice", None, "H1", &["staff", "audio", "wheel"])],
        &observed_users,
        &observed_groups,
    );
    assert_eq!(same_order, vec![Step::Unchanged("alice".to_string())]);
}

#[test]
fn user_with_another_uid_is_changed() {
    let steps = update_user(
        &vec![user("alice", Some(2005), "H1", &["staff"])],
        &vec![system_user("alice", 2001, 2000)],
        &vec![system_group("staff", 2000, &[])],
    );
    assert_eq!(
        steps,
        vec![call(Operation::ModifyUser, &["--non-unique", "--uid", "2005", "alice"])]
    );
}

#[test]
fn user_without_wanted_uid_keeps_its_uid() {
    let steps = update_user(
        &vec![user("alice", None, "H1", &["staff"])],
        &vec![system_user("alice", 7777, 2000)],
        &vec![system_group("staff", 2000, &[])],
    );
    assert_eq!(steps, vec![Step::Unchanged("alice".to_string())]);
}

#[test]
fn each_difference_of_a_user_has_its_own_call() {
    let steps = update_user(
        &vec![user("alice", Some(2005), "H1", &["staff", "wheel"])],
        &vec![system_user("alice", 2001, 1000)],
        &vec![system_group("users", 1000, &[]), system_group("staff", 2000, &[])],
    );
    assert_eq!(
        steps,
        vec![
            call(Operation::ModifyUser, &["--gid", "staff", "alice"]),
            call(Operation::ModifyUser, &["--groups", "wheel", "alice"]),
            call(Operation::ModifyUser, &["--non-unique", "--uid", "2005", "alice"]),
        ]
    );
}

#[test]
fn update_candidate_without_groups_is_left_alone() {
    let steps = update_user(
        &vec![user("alice", Some(9999), "other", &[]), user("bob", None, "pw", &["staff"])],
        &vec![system_user("alice", 2001, 1000), system_user("bob", 2002, 2000)],
        &vec![system_group("staff", 2000, &["alice"])],
    );
    assert_eq!(
        steps,
        vec![Step::Invalid("alice".to_string()), Step::Unchanged("bob".to_string())]
    );
}

#[test]
fn update_candidate_is_held_against_the_first_group_with_its_gid() {
    let steps = update_user(
        &vec![user("alice", None, "H1", &["staff"])],
        &vec![system_user("alice", 2001, 2000)],
        &vec![system_group("crew", 2000, &[]), system_group("staff", 2000, &[])],
    );
    assert_eq!(steps, vec![call(Operation::ModifyUser, &["--gid", "staff", "alice"])]);
}

#[test]
fn passwords_are_pushed_as_hashes() {
    let step = apply_passwords(&vec![user("alice", Some(2001), "H1", &["staff"])], &true);
    assert_eq!(
        step,
        Step::Invoke(Invocation {
            operation: Operation::SetPasswords,
            args: strings(&["--encrypted"]),
            input: Some("alice:H1\n".to_string()),
        })
    );
}

#[test]
fn passwords_are_pushed_in_plain() {
    let step = apply_passwords(
        &vec![user("alice", None, "secret", &["staff"]), user("bob", None, "hunter2", &[])],
        &false,
    );
    assert_eq!(
        step,
        Step::Invoke(Invocation {
            operation: Operation::SetPasswords,
            args: vec![],
            input: Some("alice:secret\nbob:hunter2\n".to_string()),
        })
    );
}

#[test]
fn passwords_of_nobody_are_an_empty_push() {
    let step = apply_passwords(&vec![], &true);
    assert_eq!(
        step,
        Step::Invoke(Invocation {
            operation: Operation::SetPasswords,
            args: strings(&["--encrypted"]),
            input: Some(String::new()),
        })
    );
}

#[test]
fn scenario_new_group_and_user_on_an_empty_host() {
    let sync = LocalRoot {
        encrypted: true,
        users: vec![user("alice", Some(2001), "H1", &["staff"])],
        groups: vec![group("staff", Some(2000))],
    };
    let system = (vec![], vec![]);
    let diff = Differ::new(&sync, &system);
    assert_eq!(diff.add.1, vec![group("staff", Some(2000))]);
    assert_eq!(diff.add.0, vec![user("alice", Some(2001), "H1", &["staff"])]);
    assert!(diff.update.0.is_empty() && diff.update.1.is_empty());
    assert!(diff.remove.0.is_empty() && diff.remove.1.is_empty());

    let steps = run_pass(&sync, &system, Some(vec![system_group("staff", 2000, &[])]));
    assert_eq!(
        steps,
        vec![
            call(Operation::AddGroup, &["--force", "--non-unique", "--gid", "2000", "staff"]),
            Step::Refresh,
            call(
                Operation::AddUser,
                &[
                    "--create-home",
                    "--no-user-group",
                    "--gid",
                    "staff",
                    "--non-unique",
                    "--uid",
                    "2001",
                    "alice"
                ]
            ),
            Step::Invoke(Invocation {
                operation: Operation::SetPasswords,
                args: strings(&["--encrypted"]),
                input: Some("alice:H1\n".to_string()),
            }),
        ]
    );
}

#[test]
fn scenario_user_as_wanted_is_a_reported_no_op() {
    let sync = LocalRoot {
        encrypted: true,
        users: vec![user("alice", Some(2001), "H1", &["staff"])],
        groups: vec![group("staff", Some(2000))],
    };
    let system = (vec![system_user("alice", 2001, 2000)], vec![system_group("staff", 2000, &[])]);
    let diff = Differ::new(&sync, &system);
    assert_eq!(diff.update.0, vec![user("alice", Some(2001), "H1", &["staff"])]);
    assert!(diff.add.0.is_empty() && diff.remove.0.is_empty());

    let (next, steps) = apply_diff(&diff, &system, &sync, Stage::Users, &None);
    assert_eq!(next, Stage::Passwords);
    assert_eq!(steps, vec![Step::Unchanged("alice".to_string())]);
}

#[test]
fn scenario_unwanted_group_is_removed_before_any_user_is_touched() {
    let sync = LocalRoot {
        encrypted: false,
        users: vec![user("alice", Some(2001), "H1", &["staff"])],
        groups: vec![group("staff", Some(2000))],
    };
    let system = (
        vec![system_user("bob", 1500, 3000)],
        vec![system_group("temp", 3000, &["bob", "alice"])],
    );
    let diff = Differ::new(&sync, &system);
    assert_eq!(diff.remove.1, vec![system_group("temp", 3000, &["bob", "alice"])]);

    let steps = run_pass(&sync, &system, None);
    let removal = steps
        .iter()
        .position(|step| *step == call(Operation::RemoveGroup, &["-f", "temp"]))
        .unwrap();
    let first_user_call = steps
        .iter()
        .position(|step| match step {
            Step::Invoke(invocation) => matches!(
                invocation.operation,
                Operation::AddUser | Operation::RemoveUser | Operation::ModifyUser
            ),
            _ => false,
        })
        .unwrap();
    assert_eq!(removal, 0);
    assert!(removal < first_user_call);
}

#[test]
fn stages_follow_each_other() {
    let sync = LocalRoot { encrypted: false, users: vec![], groups: vec![] };
    let system = (vec![], vec![]);
    let diff = Differ::new(&sync, &system);
    let (after_groups, group_steps) = apply_diff(&diff, &system, &sync, Stage::Groups, &None);
    assert_eq!(after_groups, Stage::Users);
    assert_eq!(group_steps, vec![Step::Refresh]);
    let (after_users, user_steps) = apply_diff(&diff, &system, &sync, Stage::Users, &None);
    assert_eq!(after_users, Stage::Passwords);
    assert_eq!(user_steps, vec![]);
    let (after_passwords, password_steps) =
        apply_diff(&diff, &system, &sync, Stage::Passwords, &None);
    assert_eq!(after_passwords, Stage::Done);
    assert_eq!(password_steps.len(), 1);
    let (after_done, no_steps) = apply_diff(&diff, &system, &sync, Stage::Done, &None);
    assert_eq!(after_done, Stage::Done);
    assert_eq!(no_steps, vec![]);
}

#[test]
fn group_stage_removes_then_updates_then_adds() {
    let sync = LocalRoot {
        encrypted: false,
        users: vec![],
        groups: vec![group("new", None), group("kept", Some(2500))],
    };
    let system = (vec![], vec![system_group("old", 3000, &[]), system_group("kept", 2000, &[])]);
    let diff = Differ::new(&sync, &system);
    let (_, steps) = apply_diff(&diff, &system, &sync, Stage::Groups, &None);
    assert_eq!(
        steps,
        vec![
            call(Operation::RemoveGroup, &["-f", "old"]),
            call(Operation::ModifyGroup, &["--non-unique", "--gid", "2500", "kept"]),
            call(Operation::AddGroup, &["--force", "new"]),
            Step::Refresh,
        ]
    );
}

#[test]
fn user_stage_removes_then_updates_then_adds() {
    let sync = LocalRoot {
        encrypted: false,
        users: vec![user("new", None, "pw", &["staff"]), user("kept", Some(2002), "pw", &["staff"])],
        groups: vec![group("staff", None)],
    };
    let system = (
        vec![system_user("old", 1500, 2000), system_user("kept", 2001, 2000)],
        vec![system_group("staff", 2000, &[])],
    );
    let diff = Differ::new(&sync, &system);
    let (_, steps) = apply_diff(&diff, &system, &sync, Stage::Users, &None);
    assert_eq!(
        steps,
        vec![
            call(Operation::RemoveUser, &["old"]),
            call(Operation::ModifyUser, &["--non-unique", "--uid", "2002", "kept"]),
            call(Operation::AddUser, &["--create-home", "--no-user-group", "--gid", "staff", "new"]),
        ]
    );
}

#[test]
fn user_stage_goes_by_the_groups_read_again() {
    let sync = LocalRoot {
        encrypted: false,
        users: vec![user("alice", None, "pw", &["staff"])],
        groups: vec![group("staff", None)],
    };
    let system = (vec![system_user("alice", 2001, 2000)], vec![system_group("crew", 2000, &[])]);
    let diff = Differ::new(&sync, &system);
    let fresh = Some(vec![system_group("staff", 2000, &[])]);
    let (_, with_fresh) = apply_diff(&diff, &system, &sync, Stage::Users, &fresh);
    assert_eq!(with_fresh, vec![Step::Unchanged("alice".to_string())]);
}

#[test]
fn user_stage_falls_back_to_the_groups_read_first() {
    let sync = LocalRoot {
        encrypted: false,
        users: vec![user("alice", None, "pw", &["staff"])],
        groups: vec![group("staff", None)],
    };
    let system = (vec![system_user("alice", 2001, 2000)], vec![system_group("crew", 2000, &[])]);
    let diff = Differ::new(&sync, &system);
    let (_, stale) = apply_diff(&diff, &system, &sync, Stage::Users, &None);
    assert_eq!(stale, vec![call(Operation::ModifyUser, &["--gid", "staff", "alice"])]);
}

#[test]
fn every_group_call_comes_before_every_user_call() {
    let sync = LocalRoot {
        encrypted: true,
        users: vec![
            user("alice", Some(2001), "H1", &["staff", "wheel"]),
            user("bob", None, "H2", &["wheel"]),
        ],
        groups: vec![group("staff", Some(2000)), group("wheel", None)],
    };
    let system = (
        vec![system_user("bob", 1500, 3000), system_user("carol", 1600, 3000)],
        vec![system_group("temp", 3000, &["bob"]), system_group("wheel", 2100, &[])],
    );
    let steps = run_pass(&sync, &system, None);
    let refresh = steps.iter().position(|step| *step == Step::Refresh).unwrap();
    for (at, step) in steps.iter().enumerate() {
        if let Step::Invoke(invocation) = step {
            match invocation.operation {
                Operation::AddGroup | Operation::RemoveGroup | Operation::ModifyGroup => {
                    assert!(at < refresh)
                }
                Operation::AddUser | Operation::RemoveUser | Operation::ModifyUser => {
                    assert!(at > refresh)
                }
                Operation::SetPasswords => assert_eq!(at, steps.len() - 1),
            }
        }
    }
    assert_eq!(steps.iter().filter(|step| **step == Step::Refresh).count(), 1);
}

#[test]
fn user_without_groups_causes_no_call_but_keeps_its_password_line() {
    let sync = LocalRoot {
        encrypted: true,
        users: vec![user("ghost", Some(4000), "H9", &[]), user("fresh", Some(4001), "H8", &[])],
        groups: vec![],
    };
    let system = (vec![system_user("ghost", 2001, 2000)], vec![system_group("staff", 2000, &[])]);
    let steps = run_pass(&sync, &system, None);
    assert_eq!(
        steps,
        vec![
            call(Operation::RemoveGroup, &["-f", "staff"]),
            Step::Refresh,
            Step::Invalid("ghost".to_string()),
            Step::Invalid("fresh".to_string()),
            Step::Invoke(Invocation {
                operation: Operation::SetPasswords,
                args: strings(&["--encrypted"]),
                input: Some("ghost:H9\nfresh:H8\n".to_string()),
            }),
        ]
    );
}

#[test]
fn passwords_are_pushed_once_per_pass() {
    let sync = LocalRoot {
        encrypted: false,
        users: vec![user("alice", None, "a", &["staff"]), user("bob", None, "b", &["staff"])],
        groups: vec![group("staff", None)],
    };
    let system = (vec![], vec![]);
    let steps = run_pass(&sync, &system, None);
    let pushes: Vec<&Step> = steps
        .iter()
        .filter(|step| match step {
            Step::Invoke(invocation) => invocation.operation == Operation::SetPasswords,
            _ => false,
        })
        .collect();
    assert_eq!(pushes.len(), 1);
    assert_eq!(
        *pushes[0],
        Step::Invoke(Invocation {
            operation: Operation::SetPasswords,
            args: vec![],
            input: Some("alice:a\nbob:b\n".to_string()),
        })
    );
    assert_eq!(steps.last(), Some(pushes[0]));
}

#[test]
fn second_pass_on_a_converged_host_changes_nothing() {
    let sync = LocalRoot {
        encrypted: true,
        users: vec![
            user("alice", Some(2001), "H1", &["staff", "wheel"]),
            user("bob", None, "H2", &["wheel"]),
        ],
        groups: vec![group("staff", Some(2000)), group("wheel", None)],
    };
    let system = (
        vec![system_user("alice", 2001, 2000), system_user("bob", 2002, 2001)],
        vec![system_group("staff", 2000, &[]), system_group("wheel", 2001, &["alice"])],
    );
    let diff = Differ::new(&sync, &system);
    assert!(diff.add.0.is_empty() && diff.add.1.is_empty());
    assert!(diff.remove.0.is_empty() && diff.remove.1.is_empty());
    let steps = run_pass(&sync, &system, Some(system.1.clone()));
    assert_eq!(
        steps,
        vec![
            Step::Unchanged("staff".to_string()),
            Step::Unchanged("wheel".to_string()),
            Step::Refresh,
            Step::Unchanged("alice".to_string()),
            Step::Unchanged("bob".to_string()),
            Step::Invoke(Invocation {
                operation: Operation::SetPasswords,
                args: strings(&["--encrypted"]),
                input: Some("alice:H1\nbob:H2\n".to_string()),
            }),
        ]
    );
}

#[test]
fn stage_cannot_be_decided_without_the_observed_counterparts() {
    let system = (vec![system_user("alice", 2001, 100)], vec![system_group("staff", 2000, &[])]);
    let diff = Differ {
        add: (vec![], vec![]),
        update: (vec![user("zed", None, "pw", &["staff"])], vec![group("wheel", None)]),
        remove: (vec![], vec![]),
    };
    assert!(!can_apply(&diff, &system, Stage::Groups));
    assert!(!can_apply(&diff, &system, Stage::Users));
    assert!(can_apply(&diff, &system, Stage::Passwords));
    assert!(can_apply(&diff, &system, Stage::Done));
}

#[test]
fn plan_from_the_comparison_can_always_be_applied() {
    let sync = LocalRoot {
        encrypted: false,
        users: vec![user("alice", None, "pw", &["staff"]), user("bob", None, "pw", &[])],
        groups: vec![group("staff", None), group("wheel", Some(5))],
    };
    let system = (
        vec![system_user("alice", 2001, 100), system_user("bob", 2002, 7)],
        vec![system_group("wheel", 2000, &[])],
    );
    let diff = Differ::new(&sync, &system);
    for stage in [Stage::Groups, Stage::Users, Stage::Passwords, Stage::Done] {
        assert!(can_apply(&diff, &system, stage));
    }
}

#[test]
fn user_whose_primary_group_is_not_in_the_snapshot_gets_the_wanted_one() {
    let steps = update_user(
        &vec![user("alice", None, "H1", &["staff"])],
        &vec![system_user("alice", 2001, 100)],
        &vec![system_group("staff", 2000, &[])],
    );
    assert_eq!(steps, vec![call(Operation::ModifyUser, &["--gid", "staff", "alice"])]);
}

#[test]
fn missing_primary_group_leaves_the_other_looks_as_they_are() {
    let steps = update_user(
        &vec![
            user("alice", Some(2005), "H1", &["staff", "wheel"]),
            user("bob", Some(2002), "H2", &["staff"]),
        ],
        &vec![system_user("alice", 2001, 100), system_user("bob", 2002, 2000)],
        &vec![system_group("staff", 2000, &[]), system_group("wheel", 2001, &["alice"])],
    );
    assert_eq!(
        steps,
        vec![
            call(Operation::ModifyUser, &["--gid", "staff", "alice"]),
            call(Operation::ModifyUser, &["--non-unique", "--uid", "2005", "alice"]),
            Step::Unchanged("bob".to_string()),
        ]
    );
}

#[test]
fn pass_goes_on_where_the_primary_group_was_just_removed() {
    let sync = LocalRoot {
        encrypted: true,
        users: vec![user("alice", None, "H1", &["staff"]), user("bob", None, "H2", &["staff"])],
        groups: vec![group("staff", Some(2000))],
    };
    let system = (
        vec![system_user("alice", 2001, 3000), system_user("bob", 2002, 100)],
        vec![system_group("temp", 3000, &[]), system_group("staff", 2000, &[])],
    );
    let steps = run_pass(&sync, &system, Some(vec![system_group("staff", 2000, &[])]));
    assert_eq!(
        steps,
        vec![
            call(Operation::RemoveGroup, &["-f", "temp"]),
            Step::Unchanged("staff".to_string()),
            Step::Refresh,
            call(Operation::ModifyUser, &["--gid", "staff", "alice"]),
            call(Operation::ModifyUser, &["--gid", "staff", "bob"]),
            Step::Invoke(Invocation {
                operation: Operation::SetPasswords,
                args: strings(&["--encrypted"]),
                input: Some("alice:H1\nbob:H2\n".to_string()),
            }),
        ]
    );
}

#[test]
fn user_without_groups_is_left_alone_and_the_next_one_is_decided() {
    let steps = update_user(
        &vec![user("alice", Some(9), "pw", &[]), user("bob", Some(9), "pw", &["staff"])],
        &vec![system_user("alice", 2001, 100), system_user("bob", 2002, 2000)],
        &vec![system_group("staff", 2000, &[])],
    );
    assert_eq!(
        steps,
        vec![
            Step::Invalid("alice".to_string()),
            call(Operation::ModifyUser, &["--non-unique", "--uid", "9", "bob"]),
        ]
    );
}
