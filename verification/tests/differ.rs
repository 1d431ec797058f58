use user_sync::differ::Differ;
use user_sync::sync_structs::{Group, LocalRoot, User};
use user_sync::system_parser::{SystemGroup, SystemUser};

fn wanted_user(name: &str) -> User {
    User {
        username: name.to_string(),
        uid: None,
        password: "pw".to_string(),
        groups: vec!["staff".to_string()],
    }
}

fn wanted_group(name: &str) -> Group {
    Group { name: name.to_string(), gid: None }
}

fn observed_user(name: &str) -> SystemUser {
    SystemUser { username: name.to_string(), hash: "h".to_string(), uid: 1000, gid: 1000 }
}

fn observed_group(name: &str) -> SystemGroup {
    SystemGroup { name: name.to_string(), gid: 1000, users: vec![] }
}

fn wanted(users: &[&str], groups: &[&str]) -> LocalRoot {
    LocalRoot {
        encrypted: false,
        users: users.iter().map(|name| wanted_user(name)).collect(),
        groups: groups.iter().map(|name| wanted_group(name)).collect(),
    }
}

fn observed(users: &[&str], groups: &[&str]) -> (Vec<SystemUser>, Vec<SystemGroup>) {
    (
        users.iter().map(|name| observed_user(name)).collect(),
        groups.iter().map(|name| observed_group(name)).collect(),
    )
}

fn user_names(users: &[User]) -> Vec<&str> {
    users.iter().map(|user| user.username.as_str()).collect()
}

fn group_names(groups: &[Group]) -> Vec<&str> {
    groups.iter().map(|group| group.name.as_str()).collect()
}

fn observed_user_names(users: &[SystemUser]) -> Vec<&str> {
    users.iter().map(|user| user.username.as_str()).collect()
}

fn observed_group_names(groups: &[SystemGroup]) -> Vec<&str> {
    groups.iter().map(|group| group.name.as_str()).collect()
}

#[test]
fn nothing_wanted_and_nothing_observed_gives_an_empty_plan() {
    let diff = Differ::new(&wanted(&[], &[]), &observed(&[], &[]));
    assert!(diff.add.0.is_empty() && diff.add.1.is_empty());
    assert!(diff.update.0.is_empty() && diff.update.1.is_empty());
    assert!(diff.remove.0.is_empty() && diff.remove.1.is_empty());
}

#[test]
fn names_are_sorted_into_add_update_and_remove() {
    let sync = wanted(&["a1", "c1", "a2", "c2"], &["ga", "gc"]);
    let system = observed(&["b1", "c2", "c1", "b2"], &["gc", "gb"]);
    let diff = Differ::new(&sync, &system);
    assert_eq!(user_names(&diff.add.0), vec!["a1", "a2"]);
    assert_eq!(user_names(&diff.update.0), vec!["c1", "c2"]);
    assert_eq!(observed_user_names(&diff.remove.0), vec!["b1", "b2"]);
    assert_eq!(group_names(&diff.add.1), vec!["ga"]);
    assert_eq!(group_names(&diff.update.1), vec!["gc"]);
    assert_eq!(observed_group_names(&diff.remove.1), vec!["gb"]);
}

#[test]
fn no_name_is_in_two_lists() {
    let sync = wanted(&["a", "b", "c", "d"], &["g1", "g2", "g3"]);
    let system = observed(&["c", "d", "e", "f"], &["g3", "g4"]);
    let diff = Differ::new(&sync, &system);
    let add = user_names(&diff.add.0);
    let update = user_names(&diff.update.0);
    let remove = observed_user_names(&diff.remove.0);
    for name in ["a", "b", "c", "d", "e", "f"] {
        let count = [add.contains(&name), update.contains(&name), remove.contains(&name)]
            .iter()
            .filter(|found| **found)
            .count();
        assert_eq!(count, 1, "name {}", name);
    }
    let add = group_names(&diff.add.1);
    let update = group_names(&diff.update.1);
    let remove = observed_group_names(&diff.remove.1);
    for name in ["g1", "g2", "g3", "g4"] {
        let count = [add.contains(&name), update.contains(&name), remove.contains(&name)]
            .iter()
            .filter(|found| **found)
            .count();
        assert_eq!(count, 1, "name {}", name);
    }
}

#[test]
fn parts_of_the_plan_agree_with_the_whole() {
    let sync = wanted(&["a", "b"], &["g1", "g2"]);
    let system = observed(&["b", "c"], &["g2", "g3"]);
    let diff = Differ::new(&sync, &system);
    assert_eq!(Differ::detect_add(&sync, &system), diff.add);
    assert_eq!(Differ::detect_update(&sync, &system), diff.update);
    assert_eq!(Differ::detect_remove(&sync, &system), diff.remove);
}

#[test]
fn update_candidates_carry_the_wanted_values() {
    let sync = LocalRoot {
        encrypted: false,
        users: vec![User {
            username: "alice".to_string(),
            uid: Some(2001),
            password: "H1".to_string(),
            groups: vec!["staff".to_string(), "wheel".to_string()],
        }],
        groups: vec![Group { name: "staff".to_string(), gid: Some(2000) }],
    };
    let system = (
        vec![SystemUser { username: "alice".to_string(), hash: "old".to_string(), uid: 1, gid: 2 }],
        vec![SystemGroup { name: "staff".to_string(), gid: 3, users: vec![] }],
    );
    let diff = Differ::new(&sync, &system);
    assert_eq!(diff.update.0, sync.users);
    assert_eq!(diff.update.1, sync.groups);
}

#[test]
fn users_to_remove_carry_the_observed_values() {
    let system = (
        vec![SystemUser { username: "old".to_string(), hash: "hh".to_string(), uid: 1234, gid: 99 }],
        vec![SystemGroup { name: "temp".to_string(), gid: 3000, users: vec!["old".to_string()] }],
    );
    let diff = Differ::new(&wanted(&[], &[]), &system);
    assert_eq!(diff.remove.0, system.0);
    assert_eq!(diff.remove.1, system.1);
}

#[test]
fn names_are_matched_exactly() {
    let sync = wanted(&["Alice", "bob "], &["Staff"]);
    let system = observed(&["alice", "bob"], &["staff"]);
    let diff = Differ::new(&sync, &system);
    assert_eq!(user_names(&diff.add.0), vec!["Alice", "bob "]);
    assert!(diff.update.0.is_empty());
    assert_eq!(observed_user_names(&diff.remove.0), vec!["alice", "bob"]);
    assert_eq!(group_names(&diff.add.1), vec!["Staff"]);
    assert_eq!(observed_group_names(&diff.remove.1), vec!["staff"]);
}

#[test]
fn renamed_user_is_removed_and_added() {
    let sync = wanted(&["alicia"], &[]);
    let system = observed(&["alice"], &[]);
    let diff = Differ::new(&sync, &system);
    assert_eq!(user_names(&diff.add.0), vec!["alicia"]);
    assert_eq!(observed_user_names(&diff.remove.0), vec!["alice"]);
    assert!(diff.update.0.is_empty());
}

#[test]
fn users_and_groups_of_the_same_name_are_told_apart() {
    let sync = wanted(&["staff"], &[]);
    let system = observed(&[], &["staff"]);
    let diff = Differ::new(&sync, &system);
    assert_eq!(user_names(&diff.add.0), vec!["staff"]);
    assert_eq!(observed_group_names(&diff.remove.1), vec!["staff"]);
    assert!(diff.update.0.is_empty() && diff.update.1.is_empty());
}
