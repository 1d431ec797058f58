use user_sync::differ::Differ;
use user_sync::runner::{apply_diff, can_apply, Invocation, Operation, Stage, Step};
use user_sync::sync_structs::{Group, LocalRoot, User};
use user_sync::system_parser::{SystemGroup, SystemUser};

const ACCOUNTS: &str = "root:x:0:0:root:/root:/bin/bash\n\
nobody:x:65534:65534:nobody:/nonexistent:/usr/sbin/nologin\n\
alice:x:2001:2000:Alice:/home/alice:/bin/bash\n\
bob:x:2002:2000:Bob:/home/bob:/bin/bash\n\
carol:x:2003:3000:Carol:/home/carol:/bin/bash\n";

const PASSWORDS: &str = "root:!:19000::::::\n\
alice:$6$a:19000::::::\n\
bob:$6$b:19000::::::\n\
carol:$6$c:19000::::::\n";

const GROUPS: &str = "root:x:0:\n\
staff:x:2000:\n\
wheel:x:2100:alice\n\
temp:x:3000:carol,bob\n";

fn strings(items: &[&str]) -> Vec<String> {
    items.iter().map(|item| item.to_string()).collect()
}

fn call(operation: Operation, args: &[&str]) -> Step {
    Step::Invoke(Invocation { operation, args: strings(args), input: None })
}

fn wanted() -> LocalRoot {
    LocalRoot {
        encrypted: true,
        users: vec![
            User {
                username: "alice".to_string(),
                uid: Some(2001),
                password: "$6$a".to_string(),
                groups: strings(&["staff", "wheel"]),
            },
            User {
                username: "bob".to_string(),
                uid: Some(2500),
                password: "$6$new".to_string(),
                groups: strings(&["staff", "wheel"]),
            },
            User {
                username: "dave".to_string(),
                uid: None,
                password: "$6$d".to_string(),
                groups: strings(&["devs"]),
            },
        ],
        groups: vec![
            Group { name: "staff".to_string(), gid: Some(2000) },
            Group { name: "wheel".to_string(), gid: Some(2200) },
            Group { name: "devs".to_string(), gid: None },
        ],
    }
}

fn pass(sync: &LocalRoot, system: &(Vec<SystemUser>, Vec<SystemGroup>), groups_after: &str) -> Vec<Step> {
    let diff = Differ::new(sync, system);
    let mut reread = None;
    let mut all = Vec::new();
    let mut stage = Stage::Groups;
    while stage != Stage::Done {
        assert!(can_apply(&diff, system, stage));
        let (next, steps) = apply_diff(&diff, system, sync, stage, &reread);
        for step in steps {
            if step == Step::Refresh {
                reread = SystemGroup::parse_file(groups_after).ok();
            }
            all.push(step);
        }
        stage = next;
    }
    all
}

#[test]
fn host_is_brought_to_the_wanted_state() {
    let sync = wanted();
    let system = (
        SystemUser::parse_file(ACCOUNTS, PASSWORDS).unwrap(),
        SystemGroup::parse_file(GROUPS).unwrap(),
    );
    let after_groups = "staff:x:2000:\nwheel:x:2200:alice\ndevs:x:2201:\n";
    let steps = pass(&sync, &system, after_groups);
    assert_eq!(
        steps,
        vec![
            call(Operation::RemoveGroup, &["-f", "temp"]),
            Step::Unchanged("staff".to_string()),
            call(Operation::ModifyGroup, &["--non-unique", "--gid", "2200", "wheel"]),
            call(Operation::AddGroup, &["--force", "devs"]),
            Step::Refresh,
            call(Operation::RemoveUser, &["carol"]),
            Step::Unchanged("alice".to_string()),
            call(Operation::ModifyUser, &["--groups", "wheel", "bob"]),
            call(Operation::ModifyUser, &["--non-unique", "--uid", "2500", "bob"]),
            call(Operation::AddUser, &["--create-home", "--no-user-group", "--gid", "devs", "dave"]),
            Step::Invoke(Invocation {
                operation: Operation::SetPasswords,
                args: strings(&["--encrypted"]),
                input: Some("alice:$6$a\nbob:$6$new\ndave:$6$d\n".to_string()),
            }),
        ]
    );
}

#[test]
fn second_pass_after_a_successful_one_only_reports() {
    let sync = wanted();
    let accounts = "alice:x:2001:2000:::\nbob:x:2500:2000:::\ndave:x:2501:2201:::\n";
    let passwords = "alice:$6$a\nbob:$6$new\ndave:$6$d\n";
    let groups = "staff:x:2000:\nwheel:x:2200:alice,bob\ndevs:x:2201:\n";
    let system = (
        SystemUser::parse_file(accounts, passwords).unwrap(),
        SystemGroup::parse_file(groups).unwrap(),
    );
    let diff = Differ::new(&sync, &system);
    assert!(diff.add.0.is_empty() && diff.add.1.is_empty());
    assert!(diff.remove.0.is_empty() && diff.remove.1.is_empty());
    assert_eq!(diff.update.0, sync.users);
    assert_eq!(diff.update.1, sync.groups);

    let steps = pass(&sync, &system, groups);
    assert_eq!(
        steps,
        vec![
            Step::Unchanged("staff".to_string()),
            Step::Unchanged("wheel".to_string()),
            Step::Unchanged("devs".to_string()),
            Step::Refresh,
            Step::Unchanged("alice".to_string()),
            Step::Unchanged("bob".to_string()),
            Step::Unchanged("dave".to_string()),
            Step::Invoke(Invocation {
                operation: Operation::SetPasswords,
                args: strings(&["--encrypted"]),
                input: Some("alice:$6$a\nbob:$6$new\ndave:$6$d\n".to_string()),
            }),
        ]
    );
}

#[test]
fn failed_second_reading_leaves_the_pass_with_the_first_groups() {
    let sync = wanted();
    let system = (
        SystemUser::parse_file(ACCOUNTS, PASSWORDS).unwrap(),
        SystemGroup::parse_file(GROUPS).unwrap(),
    );
    let steps = pass(&sync, &system, "broken:x:not-a-number:\n");
    let users: Vec<&Step> = steps.iter().skip_while(|step| **step != Step::Refresh).skip(1).collect();
    assert_eq!(
        users,
        vec![
            &call(Operation::RemoveUser, &["carol"]),
            &Step::Unchanged("alice".to_string()),
            &call(Operation::ModifyUser, &["--groups", "wheel", "bob"]),
            &call(Operation::ModifyUser, &["--non-unique", "--uid", "2500", "bob"]),
            &call(Operation::AddUser, &["--create-home", "--no-user-group", "--gid", "devs", "dave"]),
            &Step::Invoke(Invocation {
                operation: Operation::SetPasswords,
                args: strings(&["--encrypted"]),
                input: Some("alice:$6$a\nbob:$6$new\ndave:$6$d\n".to_string()),
            }),
        ]
    );
}

#[test]
fn system_accounts_are_never_touched() {
    let sync = LocalRoot { encrypted: false, users: vec![], groups: vec![] };
    let system = (
        SystemUser::parse_file(ACCOUNTS, PASSWORDS).unwrap(),
        SystemGroup::parse_file(GROUPS).unwrap(),
    );
    let diff = Differ::new(&sync, &system);
    let removed: Vec<&str> = diff.remove.0.iter().map(|user| user.username.as_str()).collect();
    assert_eq!(removed, vec!["alice", "bob", "carol"]);
    let removed: Vec<&str> = diff.remove.1.iter().map(|group| group.name.as_str()).collect();
    assert_eq!(removed, vec!["staff", "wheel", "temp"]);
}

#[test]
fn every_wanted_entity_is_in_the_plan_once() {
    let sync = wanted();
    let system = (
        SystemUser::parse_file(ACCOUNTS, PASSWORDS).unwrap(),
        SystemGroup::parse_file(GROUPS).unwrap(),
    );
    let diff = Differ::new(&sync, &system);
    assert_eq!(diff.add.0.len() + diff.update.0.len(), sync.users.len());
    assert_eq!(diff.add.1.len() + diff.update.1.len(), sync.groups.len());
    let mut names: Vec<&str> = diff
        .add
        .0
        .iter()
        .chain(diff.update.0.iter())
        .map(|user| user.username.as_str())
        .chain(diff.remove.0.iter().map(|user| user.username.as_str()))
        .collect();
    names.sort();
    let before = names.len();
    names.dedup();
    assert_eq!(names.len(), before);
    assert_eq!(names, vec!["alice", "bob", "carol", "dave"]);
}
