use localwork::PermissionStore;

#[test]
fn test_new_store_is_empty() {
    let store = PermissionStore::new();
    assert!(store.list().is_empty());
}

#[test]
fn test_add_folder() {
    let mut store = PermissionStore::new();
    let perm = store.add("/home/user/docs".to_string());

    assert!(!perm.id.is_empty());
    assert_eq!(perm.path, "/home/user/docs");
    assert!(perm.granted_at > 0);
    assert_eq!(store.list().len(), 1);
}

#[test]
fn test_add_multiple_folders() {
    let mut store = PermissionStore::new();
    store.add("/home/user/docs".to_string());
    store.add("/home/user/projects".to_string());
    store.add("/tmp/test".to_string());

    assert_eq!(store.list().len(), 3);
}

#[test]
fn test_remove_folder() {
    let mut store = PermissionStore::new();
    let perm = store.add("/home/user/docs".to_string());

    let removed = store.remove(&perm.id);
    assert!(removed.is_some());
    assert_eq!(removed.unwrap().path, "/home/user/docs");
    assert!(store.list().is_empty());
}

#[test]
fn test_remove_nonexistent() {
    let mut store = PermissionStore::new();
    let removed = store.remove("nonexistent-id");
    assert!(removed.is_none());
}

#[test]
fn test_is_path_allowed_exact() {
    let mut store = PermissionStore::new();
    store.add("/home/user/docs".to_string());

    assert!(store.is_path_allowed("/home/user/docs"));
}

#[test]
fn test_is_path_allowed_nested() {
    let mut store = PermissionStore::new();
    store.add("/home/user/docs".to_string());

    assert!(store.is_path_allowed("/home/user/docs/file.txt"));
    assert!(store.is_path_allowed("/home/user/docs/subdir/file.txt"));
}

#[test]
fn test_is_path_denied() {
    let mut store = PermissionStore::new();
    store.add("/home/user/docs".to_string());

    assert!(!store.is_path_allowed("/home/user/other"));
    assert!(!store.is_path_allowed("/etc/passwd"));
    assert!(!store.is_path_allowed("/home/user/doc"));
}

#[test]
fn test_is_path_denied_empty_store() {
    let store = PermissionStore::new();
    assert!(!store.is_path_allowed("/any/path"));
}

#[test]
fn test_multiple_folders_access() {
    let mut store = PermissionStore::new();
    store.add("/home/user/docs".to_string());
    store.add("/home/user/projects".to_string());

    assert!(store.is_path_allowed("/home/user/docs/file.txt"));
    assert!(store.is_path_allowed("/home/user/projects/code.rs"));
    assert!(!store.is_path_allowed("/home/user/other/file.txt"));
}

#[test]
fn test_default_impl() {
    let store = PermissionStore::default();
    assert!(store.list().is_empty());
}

#[test]
fn grant_ids_are_hyphenated_uuids() {
    let mut store = PermissionStore::new();
    let a = store.add("/a".to_string());
    let b = store.add("/a".to_string());
    assert_eq!(a.id.chars().count(), 36);
    assert_eq!(a.id.chars().filter(|c| *c == '-').count(), 4);
    assert_ne!(a.id, b.id);
    assert_eq!(store.list().len(), 2);
}

#[test]
fn prefix_match_is_textual() {
    let mut store = PermissionStore::new();
    store.add("/home/user/docs".to_string());
    assert!(store.is_path_allowed("/home/user/docs-backup"));
    assert!(store.is_path_allowed("/home/user/docsx/file"));
    assert!(!store.is_path_allowed("/home/user"));
    assert!(!store.is_path_allowed(""));
}

#[test]
fn revoke_keeps_other_grants() {
    let mut store = PermissionStore::new();
    let docs = store.add("/home/user/docs".to_string());
    let home = store.add("/home".to_string());
    let solo = store.add("/srv".to_string());

    assert!(store.remove(&solo.id).is_some());
    assert!(!store.is_path_allowed("/srv/data"));
    assert!(store.is_path_allowed("/home/user/docs/a.txt"));

    assert!(store.remove(&docs.id).is_some());
    assert!(store.is_path_allowed("/home/user/docs/a.txt"));
    assert!(store.remove(&docs.id).is_none());

    let left = store.list();
    assert_eq!(left.len(), 1);
    assert_eq!(left[0].id, home.id);
}

#[test]
fn add_with_replaces_same_id() {
    let mut store = PermissionStore::new();
    store.add_with("g1".to_string(), "/a".to_string(), 7);
    store.add_with("g2".to_string(), "/b".to_string(), 8);
    let again = store.add_with("g1".to_string(), "/c".to_string(), 9);
    assert_eq!(again.path, "/c");
    assert_eq!(again.granted_at, 9);
    let all = store.list();
    assert_eq!(all.len(), 2);
    assert!(!store.is_path_allowed("/a/x"));
    assert!(store.is_path_allowed("/c/x"));
    assert_eq!(all[0].id, "g2");
    assert_eq!(all[1].id, "g1");
}

#[test]
fn list_is_a_snapshot() {
    let mut store = PermissionStore::new();
    let g = store.add("/tmp/a".to_string());
    let snap = store.list();
    store.remove(&g.id);
    assert_eq!(snap.len(), 1);
    assert_eq!(snap[0].path, "/tmp/a");
    assert!(store.list().is_empty());
}

#[test]
fn each_grant_grows_the_registry_and_keeps_access() {
    let mut store = PermissionStore::new();
    store.add("/a".to_string());
    assert!(store.is_path_allowed("/a/x"));
    let before = store.list().len();
    let g = store.add("/a".to_string());
    assert_eq!(store.list().len(), before + 1);
    assert!(store.is_path_allowed("/a/x"));
    assert!(store.list().iter().filter(|x| x.id == g.id).count() == 1);
    store.remove(&g.id);
    assert!(store.is_path_allowed("/a/x"));
}
