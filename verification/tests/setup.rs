use user_sync::setup::{get_sync_file_path, local_section, SetupError, DEFAULT_SYNC_FILE, SUCCESS};
use user_sync::sync_structs::{LocalRoot, Root, LDAP};

#[test]
fn argument_wins_over_variable() {
    let path = get_sync_file_path(Some("/tmp/a.json".to_string()), Some("/tmp/b.json".to_string()));
    assert_eq!(path, "/tmp/a.json");
}

#[test]
fn argument_alone_names_the_file() {
    assert_eq!(get_sync_file_path(Some("sync.json".to_string()), None), "sync.json");
}

#[test]
fn variable_names_the_file_without_argument() {
    assert_eq!(get_sync_file_path(None, Some("/srv/sync.json".to_string())), "/srv/sync.json");
}

#[test]
fn default_file_without_argument_and_variable() {
    assert_eq!(get_sync_file_path(None, None), "/etc/user-sync.json");
    assert_eq!(DEFAULT_SYNC_FILE, "/etc/user-sync.json");
}

#[test]
fn exit_codes_of_failures() {
    assert_eq!(SetupError::SyncUnreadable.exit_code(), 1);
    assert_eq!(SetupError::UsersUnreadable.exit_code(), 2);
    assert_eq!(SetupError::GroupsUnreadable.exit_code(), 3);
    assert_eq!(SetupError::SyncInvalid.exit_code(), 4);
    assert_eq!(SetupError::LocalMissing.exit_code(), 5);
}

#[test]
fn exit_codes_are_distinct_and_not_success() {
    let all = [
        SetupError::SyncUnreadable,
        SetupError::UsersUnreadable,
        SetupError::GroupsUnreadable,
        SetupError::SyncInvalid,
        SetupError::LocalMissing,
    ];
    for (i, one) in all.iter().enumerate() {
        assert_ne!(one.exit_code(), SUCCESS);
        for (j, other) in all.iter().enumerate() {
            assert_eq!(one.exit_code() == other.exit_code(), i == j);
        }
    }
}

#[test]
fn local_section_is_handed_out() {
    let root = Root {
        local: Some(LocalRoot { encrypted: true, users: vec![], groups: vec![] }),
        ldap: None,
    };
    let local = local_section(root).unwrap();
    assert!(local.encrypted);
    assert!(local.users.is_empty());
    assert!(local.groups.is_empty());
}

#[test]
fn missing_local_section_is_a_failure() {
    let root = Root { local: None, ldap: Some(LDAP {}) };
    assert_eq!(local_section(root).err(), Some(SetupError::LocalMissing));
}
