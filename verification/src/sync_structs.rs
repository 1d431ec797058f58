//! The wanted state, as the sync document describes it.

use vstd::prelude::*;

verus! {

/// The sync document: a local section and a directory-service section.
#[derive(Debug)]
pub struct Root {
    pub local: Option<LocalRoot>,
    pub ldap: Option<LDAP>,
}

/// The wanted local accounts.
#[derive(Debug)]
pub struct LocalRoot {
    /// Whether the passwords of all users are already hashed.
    pub encrypted: bool,
    pub users: Vec<User>,
    pub groups: Vec<Group>,
}

/// The directory-service section. It is recognised and carries nothing.
#[derive(Debug)]
pub struct LDAP {}

/// A wanted user. The first group is the primary one, the others are
/// supplementary; a user without any group cannot be added or updated.
#[derive(Debug, PartialEq, Eq)]
pub struct User {
    pub username: String,
    pub uid: Option<u32>,
    pub password: String,
    pub groups: Vec<String>,
}

/// A wanted group. Without a gid the system picks one.
#[derive(Debug, PartialEq, Eq)]
pub struct Group {
    pub name: String,
    pub gid: Option<u32>,
}

/// What a [`User`] stands for in contracts.
pub struct UserView {
    pub username: Seq<char>,
    pub uid: Option<u32>,
    pub password: Seq<char>,
    pub groups: Seq<Seq<char>>,
}

/// What a [`Group`] stands for in contracts.
pub struct GroupView {
    pub name: Seq<char>,
    pub gid: Option<u32>,
}

/// What a [`LocalRoot`] stands for in contracts.
pub struct LocalRootView {
    pub encrypted: bool,
    pub users: Seq<UserView>,
    pub groups: Seq<GroupView>,
}

impl View for User {
    type V = UserView;

    open spec fn view(&self) -> UserView {
        UserView {
            username: self.username@,
            uid: self.uid,
            password: self.password@,
            groups: self.groups.deep_view(),
        }
    }
}

impl DeepView for User {
    type V = UserView;

    open spec fn deep_view(&self) -> UserView {
        self@
    }
}

impl View for Group {
    type V = GroupView;

    open spec fn view(&self) -> GroupView {
        GroupView { name: self.name@, gid: self.gid }
    }
}

impl DeepView for Group {
    type V = GroupView;

    open spec fn deep_view(&self) -> GroupView {
        self@
    }
}

impl View for LocalRoot {
    type V = LocalRootView;

    open spec fn view(&self) -> LocalRootView {
        LocalRootView {
            encrypted: self.encrypted,
            users: self.users.deep_view(),
            groups: self.groups.deep_view(),
        }
    }
}

impl DeepView for LocalRoot {
    type V = LocalRootView;

    open spec fn deep_view(&self) -> LocalRootView {
        self@
    }
}

impl Clone for User {
    fn clone(&self) -> (copy: Self)
        ensures
            copy@ == self@,
    {
        let copy = User {
            username: self.username.clone(),
            uid: self.uid,
            password: self.password.clone(),
            groups: self.groups.clone(),
        };
        copy
    }
}

impl Clone for Group {
    fn clone(&self) -> (copy: Self)
        ensures
            copy@ == self@,
    {
        Group { name: self.name.clone(), gid: self.gid }
    }
}

} // verus!
