use user_sync::snapshot::{current_memberships, find_group, find_group_by_gid, find_user};
use user_sync::system_parser::{SystemGroup, SystemUser};

fn strings(items: &[&str]) -> Vec<String> {
    items.iter().map(|item| item.to_string()).collect()
}

fn system_user(name: &str, hash: &str, uid: u32, gid: u32) -> SystemUser {
    SystemUser { username: name.to_string(), hash: hash.to_string(), uid, gid }
}

fn system_group(name: &str, gid: u32, users: &[&str]) -> SystemGroup {
    SystemGroup { name: name.to_string(), gid, users: strings(users) }
}

#[test]
fn first_user_of_a_name_is_found() {
    let users = vec![
        system_user("alice", "a", 1000, 1000),
        system_user("bob", "b", 1001, 1000),
        system_user("alice", "c", 1002, 1000),
    ];
    assert_eq!(find_user(&users, &"alice".to_string()), Some(&users[0]));
    assert_eq!(find_user(&users, &"bob".to_string()), Some(&users[1]));
    assert_eq!(find_user(&users, &"carol".to_string()), None);
}

#[test]
fn first_group_of_a_name_or_gid_is_found() {
    let groups = vec![
        system_group("staff", 2000, &[]),
        system_group("wheel", 2001, &[]),
        system_group("crew", 2000, &[]),
    ];
    assert_eq!(find_group(&groups, &"wheel".to_string()), Some(&groups[1]));
    assert_eq!(find_group(&groups, &"none".to_string()), None);
    assert_eq!(find_group_by_gid(&groups, 2000), Some(&groups[0]));
    assert_eq!(find_group_by_gid(&groups, 2001), Some(&groups[1]));
    assert_eq!(find_group_by_gid(&groups, 1), None);
}

#[test]
fn memberships_follow_the_order_of_the_groups() {
    let groups = vec![
        system_group("wheel", 2001, &["bob", "alice"]),
        system_group("staff", 2000, &[]),
        system_group("audio", 2002, &["alice"]),
        system_group("video", 2003, &["alicex", "xalice"]),
    ];
    assert_eq!(current_memberships(&groups, &"alice".to_string()), strings(&["wheel", "audio"]));
    assert_eq!(current_memberships(&groups, &"carol".to_string()), strings(&[]));
}

#[test]
fn group_without_members_lists_nobody() {
    let groups = vec![system_group("staff", 2000, &[]), system_group("wheel", 2001, &["alice"])];
    assert_eq!(current_memberships(&groups, &String::new()), strings(&[]));
    assert_eq!(current_memberships(&groups, &"alice".to_string()), strings(&["wheel"]));
}

