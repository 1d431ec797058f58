//! Questions to the observed state: which user or group has a name or a
//! gid, and which groups list a user.

use crate::system_parser::{SystemGroup, SystemGroupView, SystemUser, SystemUserView};
use vstd::prelude::*;

verus! {

/// The first user of the snapshot with the given name.
pub open spec fn user_named(users: Seq<SystemUserView>, name: Seq<char>) -> Option<SystemUserView>
    decreases users.len(),
{
    if users.len() == 0 {
        None
    } else if users[0].username == name {
        Some(users[0])
    } else {
        user_named(users.skip(1), name)
    }
}

/// The first group of the snapshot with the given name.
pub open spec fn group_named(groups: Seq<SystemGroupView>, name: Seq<char>) -> Option<
    SystemGroupView,
>
    decreases groups.len(),
{
    if groups.len() == 0 {
        None
    } else if groups[0].name == name {
        Some(groups[0])
    } else {
        group_named(groups.skip(1), name)
    }
}

/// The first group of the snapshot with the given gid.
pub open spec fn group_with_gid(groups: Seq<SystemGroupView>, gid: u32) -> Option<SystemGroupView>
    decreases groups.len(),
{
    if groups.len() == 0 {
        None
    } else if groups[0].gid == gid {
        Some(groups[0])
    } else {
        group_with_gid(groups.skip(1), gid)
    }
}

/// The names of the groups that list `username` as a member, in the order of
/// the snapshot.
pub open spec fn memberships(groups: Seq<SystemGroupView>, username: Seq<char>) -> Seq<Seq<char>>
    decreases groups.len(),
{
    if groups.len() == 0 {
        Seq::empty()
    } else if groups.last().users.contains(username) {
        memberships(groups.drop_last(), username).push(groups.last().name)
    } else {
        memberships(groups.drop_last(), username)
    }
}

/// Looks for the first user with the given name.
pub fn find_user<'a>(users: &'a Vec<SystemUser>, name: &String) -> (found: Option<&'a SystemUser>)
    ensures
        found.deep_view() == user_named(users.deep_view(), name@),
{
    let ghost all = users.deep_view();
    let mut i: usize = 0;
    assert(all.skip(0) =~= all);
    while i < users.len()
        invariant
            i <= users.len(),
            all == users.deep_view(),
            user_named(all, name@) == user_named(all.skip(i as int), name@),
        decreases users.len() - i,
    {
        if users[i].username == *name {
            return Some(&users[i]);
        }
        assert(all.skip(i as int).skip(1) =~= all.skip(i + 1));
        i = i + 1;
    }
    None
}

/// Looks for the first group with the given name.
pub fn find_group<'a>(groups: &'a Vec<SystemGroup>, name: &String) -> (found: Option<
    &'a SystemGroup,
>)
    ensures
        found.deep_view() == group_named(groups.deep_view(), name@),
{
    let ghost all = groups.deep_view();
    let mut i: usize = 0;
    assert(all.skip(0) =~= all);
    while i < groups.len()
        invariant
            i <= groups.len(),
            all == groups.deep_view(),
            group_named(all, name@) == group_named(all.skip(i as int), name@),
        decreases groups.len() - i,
    {
        if groups[i].name == *name {
            return Some(&groups[i]);
        }
        assert(all.skip(i as int).skip(1) =~= all.skip(i + 1));
        i = i + 1;
    }
    None
}

/// Looks for the first group with the given gid.
pub fn find_group_by_gid<'a>(groups: &'a Vec<SystemGroup>, gid: u32) -> (found: Option<
    &'a SystemGroup,
>)
    ensures
        found.deep_view() == group_with_gid(groups.deep_view(), gid),
{
    let ghost all = groups.deep_view();
    let mut i: usize = 0;
    assert(all.skip(0) =~= all);
    while i < groups.len()
        invariant
            i <= groups.len(),
            all == groups.deep_view(),
            group_with_gid(all, gid) == group_with_gid(all.skip(i as int), gid),
        decreases groups.len() - i,
    {
        if groups[i].gid == gid {
            return Some(&groups[i]);
        }
        assert(all.skip(i as int).skip(1) =~= all.skip(i + 1));
        i = i + 1;
    }
    None
}

fn lists(names: &Vec<String>, name: &String) -> (found: bool)
    ensures
        found == names.deep_view().contains(name@),
{
    let mut i: usize = 0;
    while i < names.len()
        invariant
            i <= names.len(),
            forall|k: int| 0 <= k < i ==> names.deep_view()[k] != name@,
        decreases names.len() - i,
    {
        if names[i] == *name {
            assert(names.deep_view()[i as int] == name@);
            return true;
        }
        i = i + 1;
    }
    false
}

/// Lists the names of the groups that have `username` among their members.
pub fn current_memberships(groups: &Vec<SystemGroup>, username: &String) -> (names: Vec<String>)
    ensures
        names.deep_view() == memberships(groups.deep_view(), username@),
{
    let ghost all = groups.deep_view();
    let mut names: Vec<String> = Vec::new();
    let mut i: usize = 0;
    while i < groups.len()
        invariant
            i <= groups.len(),
            all == groups.deep_view(),
            names.deep_view() == memberships(all.take(i as int), username@),
        decreases groups.len() - i,
    {
        assert(all.take(i + 1).drop_last() =~= all.take(i as int));
        if lists(&groups[i].users, username) {
            names.push(groups[i].name.clone());
        }
        i = i + 1;
    }
    assert(all.take(groups.len() as int) =~= all);
    names
}

/// Whether the snapshot holds a user of that name.
pub open spec fn has_user(users: Seq<SystemUserView>, name: Seq<char>) -> bool {
    exists|i: int| 0 <= i < users.len() && (#[trigger] users[i]).username == name
}

/// Whether the snapshot holds a group of that name.
pub open spec fn has_group(groups: Seq<SystemGroupView>, name: Seq<char>) -> bool {
    exists|i: int| 0 <= i < groups.len() && (#[trigger] groups[i]).name == name
}

/// A user is found by its name exactly if the snapshot holds one of that
/// name, and the user found has that name and is one of the snapshot.
pub proof fn lemma_user_named(users: Seq<SystemUserView>, name: Seq<char>)
    ensures
        user_named(users, name) is Some <==> has_user(users, name),
        user_named(users, name) matches Some(user) ==> user.username == name && users.contains(
            user,
        ),
    decreases users.len(),
{
    if users.len() > 0 {
        let rest = users.skip(1);
        lemma_user_named(rest, name);
        if users[0].username != name {
            if has_user(users, name) {
                let i = choose|i: int|
                    0 <= i < users.len() && (#[trigger] users[i]).username == name;
                assert(rest[i - 1].username == name);
            }
        }
    }
}

/// A group is found by its name exactly if the snapshot holds one of that
/// name, and the group found has that name and is one of the snapshot.
pub proof fn lemma_group_named(groups: Seq<SystemGroupView>, name: Seq<char>)
    ensures
        group_named(groups, name) is Some <==> has_group(groups, name),
        group_named(groups, name) matches Some(group) ==> group.name == name && groups.contains(
            group,
        ),
    decreases groups.len(),
{
    if groups.len() > 0 {
        let rest = groups.skip(1);
        lemma_group_named(rest, name);
        if groups[0].name != name {
            if has_group(groups, name) {
                let i = choose|i: int|
                    0 <= i < groups.len() && (#[trigger] groups[i]).name == name;
                assert(rest[i - 1].name == name);
            }
        }
    }
}

} // verus!
