//! The observed state: the users and groups that the account stores of the
//! host hold.

use crate::consts::{
    GID_FIELD, GROUP_FIELDS, GROUP_GID_FIELD, MIN_GID, MIN_UID, NAME_FIELD, PASSWORD_FIELD,
    PASSWORD_FIELDS, UID_FIELD, USER_FIELDS, USER_LIST_FIELD,
};
use crate::text::{lines, number, parse_number, pieces, split, split_lines};
use vstd::prelude::*;

verus! {

/// A user of the host: the name, the uid and the primary gid come from its
/// account record, the hash from the password record of the same name.
#[derive(Debug, PartialEq, Eq)]
pub struct SystemUser {
    pub username: String,
    pub hash: String,
    pub uid: u32,
    pub gid: u32,
}

/// A group of the host, with the names of its members.
#[derive(Debug, PartialEq, Eq)]
pub struct SystemGroup {
    pub name: String,
    pub gid: u32,
    pub users: Vec<String>,
}

/// What a [`SystemUser`] stands for in contracts.
pub struct SystemUserView {
    pub username: Seq<char>,
    pub hash: Seq<char>,
    pub uid: u32,
    pub gid: u32,
}

/// What a [`SystemGroup`] stands for in contracts.
pub struct SystemGroupView {
    pub name: Seq<char>,
    pub gid: u32,
    pub users: Seq<Seq<char>>,
}

impl View for SystemUser {
    type V = SystemUserView;

    open spec fn view(&self) -> SystemUserView {
        SystemUserView {
            username: self.username@,
            hash: self.hash@,
            uid: self.uid,
            gid: self.gid,
        }
    }
}

impl DeepView for SystemUser {
    type V = SystemUserView;

    open spec fn deep_view(&self) -> SystemUserView {
        self@
    }
}

impl View for SystemGroup {
    type V = SystemGroupView;

    open spec fn view(&self) -> SystemGroupView {
        SystemGroupView { name: self.name@, gid: self.gid, users: self.users.deep_view() }
    }
}

impl DeepView for SystemGroup {
    type V = SystemGroupView;

    open spec fn deep_view(&self) -> SystemGroupView {
        self@
    }
}

impl Clone for SystemUser {
    fn clone(&self) -> (copy: Self)
        ensures
            copy@ == self@,
    {
        SystemUser {
            username: self.username.clone(),
            hash: self.hash.clone(),
            uid: self.uid,
            gid: self.gid,
        }
    }
}

impl Clone for SystemGroup {
    fn clone(&self) -> (copy: Self)
        ensures
            copy@ == self@,
    {
        let copy = SystemGroup {
            name: self.name.clone(),
            gid: self.gid,
            users: self.users.clone(),
        };
        copy
    }
}

/// Why an account store could not be read.
#[derive(Debug, Clone, Copy, PartialEq, Eq, Structural)]
pub enum ParseError {
    /// A record holds a uid that is no number.
    InvalidUid,
    /// A record holds a gid that is no number.
    InvalidGid,
}

/// The fields of one record, by position.
pub type RawEntry = Vec<String>;

/// The record that a line holds: its fields are separated by colons. Of
/// these the first `width` are taken; the fields that the line lacks are
/// empty.
pub open spec fn record(line: Seq<char>, width: nat) -> Seq<Seq<char>> {
    let fields = pieces(line, ':');
    Seq::new(
        width,
        |i: int|
            if i < fields.len() {
                fields[i]
            } else {
                Seq::empty()
            },
    )
}

/// The records of a store, one for each line of its text.
pub open spec fn records(text: Seq<char>, width: nat) -> Seq<Seq<Seq<char>>> {
    let found = lines(text);
    Seq::new(found.len(), |i: int| record(found[i], width))
}

fn parse_record(line: &str, width: usize) -> (entry: RawEntry)
    ensures
        entry.deep_view() == record(line@, width as nat),
{
    let fields = split(line, ':');
    let mut entry: Vec<String> = Vec::new();
    let mut i: usize = 0;
    while i < width
        invariant
            i <= width,
            entry.len() == i,
            fields.deep_view() == pieces(line@, ':'),
            forall|k: int| 0 <= k < i ==> entry[k]@ == record(line@, width as nat)[k],
        decreases width - i,
    {
        if i < fields.len() {
            entry.push(fields[i].clone());
        } else {
            entry.push(String::new());
        }
        i = i + 1;
    }
    entry
}

/// Reads the text of a store whose records have `width` fields.
pub fn parse_system_file(text: &str, width: usize) -> (entries: Vec<RawEntry>)
    ensures
        entries.deep_view() == records(text@, width as nat),
{
    let found = split_lines(text);
    let mut entries: Vec<RawEntry> = Vec::new();
    let mut i: usize = 0;
    while i < found.len()
        invariant
            i <= found.len(),
            entries.len() == i,
            found.deep_view() == lines(text@),
            forall|k: int|
                0 <= k < i ==> entries[k].deep_view() == record(lines(text@)[k], width as nat),
        decreases found.len() - i,
    {
        entries.push(parse_record(found[i].as_str(), width));
        i = i + 1;
    }
    entries
}

/// The field of a record at a position, or `missing` where the record is too
/// short to have one.
pub open spec fn field_or(entry: Seq<Seq<char>>, at: int, missing: Seq<char>) -> Seq<char> {
    if 0 <= at < entry.len() {
        entry[at]
    } else {
        missing
    }
}

fn field<'a>(entry: &'a RawEntry, at: usize, missing: &'a str) -> (text: &'a str)
    ensures
        text@ == field_or(entry.deep_view(), at as int, missing@),
{
    if at < entry.len() {
        entry[at].as_str()
    } else {
        missing
    }
}

/// The uid of an account record, where it is a number. A record without uid
/// counts as one with uid 0.
pub open spec fn entry_uid(entry: Seq<Seq<char>>) -> Option<u32> {
    number(field_or(entry, UID_FIELD as int, "0"@))
}

/// The gid of a group record, where it is a number. A record without gid
/// counts as one with gid 0.
pub open spec fn entry_gid(entry: Seq<Seq<char>>) -> Option<u32> {
    number(field_or(entry, GROUP_GID_FIELD as int, "0"@))
}

/// Whether an account record is that of a human user: its uid is at the
/// floor or above it and its name is not that of the anonymous user. A
/// record without name counts as that of the anonymous user.
pub open spec fn user_visible(entry: Seq<Seq<char>>) -> bool {
    &&& entry_uid(entry) matches Some(uid) && uid >= MIN_UID
    &&& field_or(entry, NAME_FIELD as int, "nobody"@) != "nobody"@
}

/// Whether a group record is that of a human group: its gid is at the floor
/// or above it and its name is not that of the anonymous group. A record
/// without name counts as that of the anonymous group.
pub open spec fn group_visible(entry: Seq<Seq<char>>) -> bool {
    &&& entry_gid(entry) matches Some(gid) && gid >= MIN_GID
    &&& field_or(entry, NAME_FIELD as int, "nogroup"@) != "nogroup"@
}

/// Tells the records of human users from the others.
pub open spec fn visible_user() -> spec_fn(Seq<Seq<char>>) -> bool {
    |entry: Seq<Seq<char>>| user_visible(entry)
}

/// Tells the records of human groups from the others.
pub open spec fn visible_group() -> spec_fn(Seq<Seq<char>>) -> bool {
    |entry: Seq<Seq<char>>| group_visible(entry)
}

/// Whether the uid of every record is a number.
pub open spec fn uids_numeric(entries: Seq<Seq<Seq<char>>>) -> bool {
    forall|i: int| 0 <= i < entries.len() ==> entry_uid(#[trigger] entries[i]) is Some
}

/// Whether the gid of every group record is a number.
pub open spec fn gids_numeric(entries: Seq<Seq<Seq<char>>>) -> bool {
    forall|i: int| 0 <= i < entries.len() ==> entry_gid(#[trigger] entries[i]) is Some
}

fn copy_entry(entry: &RawEntry) -> (copy: RawEntry)
    ensures
        copy.deep_view() == entry.deep_view(),
{
    let copy = entry.clone();
    copy
}

/// Keeps the account records of human users. Fails where the uid of a record,
/// kept or not, is no number.
pub fn filter_users(users: Vec<RawEntry>) -> (kept: Result<Vec<RawEntry>, ParseError>)
    ensures
        match kept {
            Ok(entries) => uids_numeric(users.deep_view()) && entries.deep_view()
                == users.deep_view().filter(visible_user()),
            Err(error) => error == ParseError::InvalidUid && !uids_numeric(users.deep_view()),
        },
{
    let ghost all = users.deep_view();
    let mut entries: Vec<RawEntry> = Vec::new();
    let mut i: usize = 0;
    proof {
        reveal(Seq::filter);
    }
    while i < users.len()
        invariant
            i <= users.len(),
            all == users.deep_view(),
            forall|k: int| 0 <= k < i ==> entry_uid(#[trigger] all[k]) is Some,
            entries.deep_view() == all.take(i as int).filter(visible_user()),
        decreases users.len() - i,
    {
        let user = &users[i];
        proof {
            assert(all.take(i + 1) =~= all.take(i as int).push(all[i as int]));
            all.take(i as int).lemma_filter_push(all[i as int], visible_user());
        }
        let user_id = match parse_number(field(user, UID_FIELD, "0")) {
            Some(user_id) => user_id,
            None => {
                return Err(ParseError::InvalidUid);
            },
        };
        let nobody_username = "nobody".to_owned();
        let username = field(user, NAME_FIELD, "nobody").to_owned();
        if user_id >= MIN_UID && username != nobody_username {
            entries.push(copy_entry(user));
        }
        i = i + 1;
    }
    assert(all.take(users.len() as int) =~= all);
    Ok(entries)
}

/// Keeps the group records of human groups. Fails where the gid of a record,
/// kept or not, is no number.
pub fn filter_groups(groups: Vec<RawEntry>) -> (kept: Result<Vec<RawEntry>, ParseError>)
    ensures
        match kept {
            Ok(entries) => gids_numeric(groups.deep_view()) && entries.deep_view()
                == groups.deep_view().filter(visible_group()),
            Err(error) => error == ParseError::InvalidGid && !gids_numeric(groups.deep_view()),
        },
{
    let ghost all = groups.deep_view();
    let mut entries: Vec<RawEntry> = Vec::new();
    let mut i: usize = 0;
    proof {
        reveal(Seq::filter);
    }
    while i < groups.len()
        invariant
            i <= groups.len(),
            all == groups.deep_view(),
            forall|k: int| 0 <= k < i ==> entry_gid(#[trigger] all[k]) is Some,
            entries.deep_view() == all.take(i as int).filter(visible_group()),
        decreases groups.len() - i,
    {
        let group = &groups[i];
        proof {
            assert(all.take(i + 1) =~= all.take(i as int).push(all[i as int]));
            all.take(i as int).lemma_filter_push(all[i as int], visible_group());
        }
        let group_id = match parse_number(field(group, GROUP_GID_FIELD, "0")) {
            Some(group_id) => group_id,
            None => {
                return Err(ParseError::InvalidGid);
            },
        };
        let nogroup_name = "nogroup".to_owned();
        let name = field(group, NAME_FIELD, "nogroup").to_owned();
        if group_id >= MIN_GID && name != nogroup_name {
            entries.push(copy_entry(group));
        }
        i = i + 1;
    }
    assert(all.take(groups.len() as int) =~= all);
    Ok(entries)
}

/// The first password record with the given name.
pub open spec fn password_record(passwords: Seq<Seq<Seq<char>>>, name: Seq<char>) -> Option<
    Seq<Seq<char>>,
>
    decreases passwords.len(),
{
    if passwords.len() == 0 {
        None
    } else if field_or(passwords[0], NAME_FIELD as int, "nobody"@) == name {
        Some(passwords[0])
    } else {
        password_record(passwords.skip(1), name)
    }
}

fn find_password<'a>(passwords: &'a Vec<RawEntry>, name: &String) -> (found: Option<&'a RawEntry>)
    ensures
        found.deep_view() == password_record(passwords.deep_view(), name@),
{
    let ghost all = passwords.deep_view();
    let mut i: usize = 0;
    assert(all.skip(0) =~= all);
    while i < passwords.len()
        invariant
            i <= passwords.len(),
            all == passwords.deep_view(),
            password_record(all, name@) == password_record(all.skip(i as int), name@),
        decreases passwords.len() - i,
    {
        if field(&passwords[i], NAME_FIELD, "nobody").to_owned() == *name {
            return Some(&passwords[i]);
        }
        assert(all.skip(i as int).skip(1) =~= all.skip(i + 1));
        i = i + 1;
    }
    None
}

/// Tells the account records that have a password record of the same name
/// from those that have none.
pub open spec fn has_password(passwords: Seq<Seq<Seq<char>>>) -> spec_fn(Seq<Seq<char>>) -> bool {
    |entry: Seq<Seq<char>>| password_record(passwords, entry[NAME_FIELD as int]) is Some
}

/// The account records that stand for a user of the host: those of human
/// users that have a password record of the same name.
pub open spec fn known_users(
    accounts: Seq<Seq<Seq<char>>>,
    passwords: Seq<Seq<Seq<char>>>,
) -> Seq<Seq<Seq<char>>> {
    accounts.filter(visible_user()).filter(has_password(passwords))
}

/// The user that an account record stands for, with the hash of the first
/// password record of the same name.
pub open spec fn user_of(entry: Seq<Seq<char>>, passwords: Seq<Seq<Seq<char>>>) -> SystemUserView {
    SystemUserView {
        username: entry[NAME_FIELD as int],
        hash: field_or(
            password_record(passwords, entry[NAME_FIELD as int]).unwrap(),
            PASSWORD_FIELD as int,
            Seq::empty(),
        ),
        uid: number(entry[UID_FIELD as int]).unwrap(),
        gid: number(entry[GID_FIELD as int]).unwrap(),
    }
}

/// Whether the primary gid of every record is a number.
pub open spec fn primary_gids_numeric(entries: Seq<Seq<Seq<char>>>) -> bool {
    forall|i: int|
        0 <= i < entries.len() ==> number((#[trigger] entries[i])[GID_FIELD as int]) is Some
}

/// The users of the host, as the texts of the account store and of the
/// password store give them, in the order of the account store. The uid of
/// every account record has to be a number, and so has the primary gid of
/// every record that stands for a user.
pub open spec fn observed_users(accounts: Seq<char>, passwords: Seq<char>) -> Result<
    Seq<SystemUserView>,
    ParseError,
> {
    let passwords = records(passwords, PASSWORD_FIELDS as nat);
    let accounts = records(accounts, USER_FIELDS as nat);
    let known = known_users(accounts, passwords);
    if !uids_numeric(accounts) {
        Err(ParseError::InvalidUid)
    } else if !primary_gids_numeric(known) {
        Err(ParseError::InvalidGid)
    } else {
        Ok(Seq::new(known.len(), |i: int| user_of(known[i], passwords)))
    }
}

/// What the reading of the users stands for in contracts.
pub open spec fn users_view(read: Result<Vec<SystemUser>, ParseError>) -> Result<
    Seq<SystemUserView>,
    ParseError,
> {
    match read {
        Ok(users) => Ok(users.deep_view()),
        Err(error) => Err(error),
    }
}

/// What is kept of a sequence is part of it.
proof fn lemma_kept_is_part<A>(items: Seq<A>, keep: spec_fn(A) -> bool)
    ensures
        forall|i: int|
            0 <= i < items.filter(keep).len() ==> items.contains(#[trigger] items.filter(keep)[i]),
{
    assert forall|i: int| 0 <= i < items.filter(keep).len() implies items.contains(
        #[trigger] items.filter(keep)[i],
    ) by {
        items.lemma_filter_contains_rev(keep, items.filter(keep)[i]);
    }
}

impl SystemUser {
    /// Reads the users of the host from the text of the account store and
    /// that of the password store.
    ///
    /// A user is a record of the account store with a uid at the floor or
    /// above it, a name other than that of the anonymous user, and a
    /// password record of the same name. The users come in the order of the
    /// account store.
    ///
    /// # Errors
    /// [`ParseError::InvalidUid`] where the uid of any account record is no
    /// number; else [`ParseError::InvalidGid`] where the primary gid of a
    /// user is no number.
    pub fn parse_file(accounts: &str, passwords: &str) -> (read: Result<Vec<Self>, ParseError>)
        ensures
            users_view(read) == observed_users(accounts@, passwords@),
    {
        let ghost all = records(accounts@, USER_FIELDS as nat);
        let ghost hashes = records(passwords@, PASSWORD_FIELDS as nat);
        let ghost shown = all.filter(visible_user());
        let raw_users = match filter_users(parse_system_file(accounts, USER_FIELDS)) {
            Ok(raw_users) => raw_users,
            Err(error) => {
                return Err(error);
            },
        };
        let raw_passwords = parse_system_file(passwords, PASSWORD_FIELDS);
        proof {
            lemma_kept_is_part(all, visible_user());
            assert forall|k: int| 0 <= k < shown.len() implies (#[trigger] shown[k]).len()
                == USER_FIELDS && user_visible(shown[k]) by {
                all.lemma_filter_pred(visible_user(), k);
            }
        }

        let mut rst: Vec<Self> = Vec::new();
        let mut i: usize = 0;
        proof {
            reveal(Seq::filter);
        }
        while i < raw_users.len()
            invariant
                i <= raw_users.len(),
                shown == raw_users.deep_view(),
                hashes == raw_passwords.deep_view(),
                all == records(accounts@, USER_FIELDS as nat),
                hashes == records(passwords@, PASSWORD_FIELDS as nat),
                shown == all.filter(visible_user()),
                uids_numeric(all),
                forall|k: int|
                    0 <= k < shown.len() ==> (#[trigger] shown[k]).len() == USER_FIELDS
                        && user_visible(shown[k]),
                primary_gids_numeric(shown.take(i as int).filter(has_password(hashes))),
                rst.len() == shown.take(i as int).filter(has_password(hashes)).len(),
                forall|k: int|
                    0 <= k < rst.len() ==> rst[k]@ == user_of(
                        shown.take(i as int).filter(has_password(hashes))[k],
                        hashes,
                    ),
            decreases raw_users.len() - i,
        {
            let user_entry = &raw_users[i];
            proof {
                assert(shown.take(i + 1) =~= shown.take(i as int).push(shown[i as int]));
                shown.take(i as int).lemma_filter_push(shown[i as int], has_password(hashes));
            }
            let username = user_entry[NAME_FIELD].clone();
            if let Some(password_entry) = find_password(&raw_passwords, &username) {
                let uid = parse_number(user_entry[UID_FIELD].as_str()).unwrap();
                let gid = match parse_number(user_entry[GID_FIELD].as_str()) {
                    Some(gid) => gid,
                    None => {
                        proof {
                            shown.lemma_filter_contains(has_password(hashes), i as int);
                        }
                        return Err(ParseError::InvalidGid);
                    },
                };
                rst.push(
                    Self {
                        username,
                        hash: field(password_entry, PASSWORD_FIELD, "").to_owned(),
                        uid,
                        gid,
                    },
                );
                proof {
                    reveal_strlit("");
                    assert(""@ =~= Seq::<char>::empty());
                }
            }
            i = i + 1;
        }
        proof {
            let known = known_users(all, hashes);
            assert(shown.take(raw_users.len() as int) =~= shown);
            assert(rst.deep_view() =~= Seq::new(known.len(), |k: int| user_of(known[k], hashes)));
        }
        Ok(rst)
    }
}

/// The names that the member field of a group record holds: they are
/// separated by commas, and an empty field holds no name.
pub open spec fn members(field: Seq<char>) -> Seq<Seq<char>> {
    if field.len() == 0 {
        Seq::empty()
    } else {
        pieces(field, ',')
    }
}

fn parse_members(field: &str) -> (names: Vec<String>)
    ensures
        names.deep_view() == members(field@),
{
    if field.is_empty() {
        Vec::new()
    } else {
        split(field, ',')
    }
}

/// The group that a group record stands for.
pub open spec fn group_of(entry: Seq<Seq<char>>) -> SystemGroupView {
    SystemGroupView {
        name: entry[NAME_FIELD as int],
        gid: number(entry[GROUP_GID_FIELD as int]).unwrap(),
        users: members(entry[USER_LIST_FIELD as int]),
    }
}

/// The groups of the host, as the text of the group store gives them: the
/// human groups, in the order of the store. The gid of every group record
/// has to be a number.
pub open spec fn observed_groups(groups: Seq<char>) -> Result<Seq<SystemGroupView>, ParseError> {
    let entries = records(groups, GROUP_FIELDS as nat);
    let shown = entries.filter(visible_group());
    if !gids_numeric(entries) {
        Err(ParseError::InvalidGid)
    } else {
        Ok(Seq::new(shown.len(), |i: int| group_of(shown[i])))
    }
}

/// What the reading of the groups stands for in contracts.
pub open spec fn groups_view(read: Result<Vec<SystemGroup>, ParseError>) -> Result<
    Seq<SystemGroupView>,
    ParseError,
> {
    match read {
        Ok(groups) => Ok(groups.deep_view()),
        Err(error) => Err(error),
    }
}

impl SystemGroup {
    /// Reads the groups of the host from the text of the group store.
    ///
    /// A group is a record with a gid at the floor or above it and a name
    /// other than that of the anonymous group. The groups come in the order
    /// of the store. A group whose member field is empty has no member.
    ///
    /// # Errors
    /// [`ParseError::InvalidGid`] where the gid of any record is no number.
    pub fn parse_file(groups: &str) -> (read: Result<Vec<Self>, ParseError>)
        ensures
            groups_view(read) == observed_groups(groups@),
    {
        let ghost all = records(groups@, GROUP_FIELDS as nat);
        let ghost shown = all.filter(visible_group());
        let raw_groups = match filter_groups(parse_system_file(groups, GROUP_FIELDS)) {
            Ok(raw_groups) => raw_groups,
            Err(error) => {
                return Err(error);
            },
        };
        proof {
            lemma_kept_is_part(all, visible_group());
            assert forall|k: int| 0 <= k < shown.len() implies (#[trigger] shown[k]).len()
                == GROUP_FIELDS && group_visible(shown[k]) by {
                all.lemma_filter_pred(visible_group(), k);
            }
        }

        let mut rst: Vec<Self> = Vec::new();
        let mut i: usize = 0;
        while i < raw_groups.len()
            invariant
                i <= raw_groups.len(),
                shown == raw_groups.deep_view(),
                forall|k: int|
                    0 <= k < shown.len() ==> (#[trigger] shown[k]).len() == GROUP_FIELDS
                        && group_visible(shown[k]),
                rst.len() == i,
                forall|k: int| 0 <= k < i ==> rst[k]@ == group_of(shown[k]),
            decreases raw_groups.len() - i,
        {
            let group_entry = &raw_groups[i];
            assert(group_entry.deep_view() == shown[i as int]);
            let users = parse_members(group_entry[USER_LIST_FIELD].as_str());
            rst.push(
                Self {
                    name: group_entry[NAME_FIELD].clone(),
                    gid: parse_number(group_entry[GROUP_GID_FIELD].as_str()).unwrap(),
                    users,
                },
            );
            i = i + 1;
        }
        assert(rst.deep_view() =~= Seq::new(shown.len(), |k: int| group_of(shown[k])));
        Ok(rst)
    }
}

/// Every user that is read is a human user: its uid is at the floor or above
/// it and its name is not that of the anonymous user.
pub proof fn lemma_observed_users_are_human(accounts: Seq<char>, passwords: Seq<char>)
    ensures
        observed_users(accounts, passwords) matches Ok(users) ==> forall|i: int|
            0 <= i < users.len() ==> (#[trigger] users[i]).uid >= MIN_UID && users[i].username
                != "nobody"@,
{
    if let Ok(users) = observed_users(accounts, passwords) {
        let hashes = records(passwords, PASSWORD_FIELDS as nat);
        let all = records(accounts, USER_FIELDS as nat);
        let shown = all.filter(visible_user());
        let known = shown.filter(has_password(hashes));
        lemma_kept_is_part(all, visible_user());
        lemma_kept_is_part(shown, has_password(hashes));
        assert forall|i: int| 0 <= i < users.len() implies (#[trigger] users[i]).uid >= MIN_UID
            && users[i].username != "nobody"@ by {
            let at = choose|at: int| 0 <= at < shown.len() && shown[at] == known[i];
            all.lemma_filter_pred(visible_user(), at);
        }
    }
}

/// Every group that is read is a human group: its gid is at the floor or
/// above it and its name is not that of the anonymous group.
pub proof fn lemma_observed_groups_are_human(groups: Seq<char>)
    ensures
        observed_groups(groups) matches Ok(found) ==> forall|i: int|
            0 <= i < found.len() ==> (#[trigger] found[i]).gid >= MIN_GID && found[i].name
                != "nogroup"@,
{
    if let Ok(found) = observed_groups(groups) {
        let all = records(groups, GROUP_FIELDS as nat);
        let shown = all.filter(visible_group());
        lemma_kept_is_part(all, visible_group());
        assert forall|i: int| 0 <= i < found.len() implies (#[trigger] found[i]).gid >= MIN_GID
            && found[i].name != "nogroup"@ by {
            all.lemma_filter_pred(visible_group(), i);
        }
    }
}

/// A group without members lists nobody: no name, the empty one neither, is
/// a member of a group whose member field is empty.
pub proof fn lemma_empty_field_has_no_member(name: Seq<char>)
    ensures
        members(Seq::empty()) == Seq::<Seq<char>>::empty(),
        !members(Seq::empty()).contains(name),
{
}

} // verus!
