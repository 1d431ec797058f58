//! The fixed values of the program: the floor between system and human ids,
//! the account stores with the layout of their records, the account tools.

use vstd::prelude::*;

verus! {

/// Lowest user id that belongs to a human account.
pub const MIN_UID: u32 = 1000;

/// Lowest group id that belongs to a human group.
pub const MIN_GID: u32 = 1000;

/// The account store.
pub const USER_FILE: &'static str = "/etc/passwd";

/// The group store.
pub const GROUP_FILE: &'static str = "/etc/group";

/// The password store.
pub const PASSWORD_FILE: &'static str = "/etc/shadow";

/// The fields of an account record: name, password, uid, gid, gecos, home,
/// shell.
pub const USER_FIELDS: usize = 7;

/// The fields of a group record: name, password, gid, users.
pub const GROUP_FIELDS: usize = 4;

/// The fields of a password record: name, password, last change, minimum,
/// maximum, warn, inactive, expire.
pub const PASSWORD_FIELDS: usize = 8;

/// Where a record of any store holds the name.
pub const NAME_FIELD: usize = 0;

/// Where a record of any store holds the password.
pub const PASSWORD_FIELD: usize = 1;

/// Where an account record holds the uid.
pub const UID_FIELD: usize = 2;

/// Where an account record holds the primary gid.
pub const GID_FIELD: usize = 3;

/// Where a group record holds the gid.
pub const GROUP_GID_FIELD: usize = 2;

/// Where a group record holds the names of the members.
pub const USER_LIST_FIELD: usize = 3;

/// The tool that creates a group.
pub const ADD_GROUP_CMD: &'static str = "/usr/sbin/groupadd";

/// The tool that removes a group.
pub const REMOVE_GROUP_CMD: &'static str = "/usr/sbin/groupdel";

/// The tool that changes a group.
pub const UPDATE_GROUP_CMD: &'static str = "/usr/sbin/groupmod";

/// The tool that creates a user.
pub const ADD_USER_CMD: &'static str = "/usr/sbin/useradd";

/// The tool that removes a user.
pub const REMOVE_USER_CMD: &'static str = "/usr/sbin/userdel";

/// The tool that changes a user.
pub const UPDATE_USER_CMD: &'static str = "/usr/sbin/usermod";

/// The tool that sets the passwords of many users at once.
pub const UPDATE_PASSWORDS_CMD: &'static str = "/usr/sbin/chpasswd";

} // verus!
