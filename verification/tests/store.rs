use git_wt::errors::StoreError;
use git_wt::store::add_config_entry;
use git_wt::store::composite_key;
use git_wt::store::get_config_entries;
use git_wt::store::get_config_entry;
use git_wt::store::get_config_path;
use git_wt::store::open_store;
use git_wt::paths::dedicated_config_path;
use git_wt::paths::resolve_config_path;
use std::io::Write;

fn temp_store_path(dir: &tempfile::TempDir) -> String {
    format!("{}/.gitconfig_wt", dir.path().to_str().unwrap())
}

#[test]
fn composite_key_is_dot_joined() {
    assert_eq!(composite_key("myrepo", "create-commands"), "myrepo.create-commands");
    assert_eq!(composite_key("a", "b"), "a.b");
}

#[test]
fn dedicated_path_replaces_file_name() {
    assert_eq!(
        dedicated_config_path("/home/user/.config/git/config"),
        "/home/user/.config/git/.gitconfig_wt"
    );
    assert_eq!(dedicated_config_path("/home/user/.gitconfig"), "/home/user/.gitconfig_wt");
    assert_eq!(dedicated_config_path("config"), ".gitconfig_wt");
}

#[test]
fn resolve_prefers_xdg_path() {
    let r = resolve_config_path(Some("xdg".to_string()), Some("global".to_string()));
    assert_eq!(r.unwrap(), "xdg");
}

#[test]
fn resolve_falls_back_to_global_path() {
    let r = resolve_config_path(None, Some("global".to_string()));
    assert_eq!(r.unwrap(), "global");
}

#[test]
fn resolve_fails_when_no_path_found() {
    let r = resolve_config_path(None, None);
    assert!(matches!(r, Err(StoreError::Location)));
    assert_eq!(
        StoreError::Location.message(),
        "Unable to find XDG or User git configuration"
    );
}

#[test]
fn fresh_store_has_zero_entries() {
    let dir = tempfile::tempdir().unwrap();
    let path = temp_store_path(&dir);
    let config = open_store(&path, false).unwrap();
    let entries = get_config_entries(&config, "somerepo", "create-commands").unwrap();
    assert!(entries.is_empty());
}

#[test]
fn add_then_get_appends_in_order() {
    let dir = tempfile::tempdir().unwrap();
    let path = temp_store_path(&dir);
    let mut config = open_store(&path, false).unwrap();
    add_config_entry(&mut config, "myrepo", "create-commands", "cmd one").unwrap();
    add_config_entry(&mut config, "myrepo", "create-commands", "cmd two").unwrap();
    let entries = get_config_entries(&config, "myrepo", "create-commands").unwrap();
    assert_eq!(entries, vec!["cmd one".to_string(), "cmd two".to_string()]);

    add_config_entry(&mut config, "myrepo", "create-commands", "cmd three").unwrap();
    let entries = get_config_entries(&config, "myrepo", "create-commands").unwrap();
    assert_eq!(entries.last().unwrap(), "cmd three");
    assert_eq!(entries[0], "cmd one");
    assert_eq!(entries[1], "cmd two");
    assert_eq!(entries.len(), 3);
}

#[test]
fn unset_key_reads_empty_not_error() {
    let dir = tempfile::tempdir().unwrap();
    let path = temp_store_path(&dir);
    let mut config = open_store(&path, false).unwrap();
    add_config_entry(&mut config, "myrepo", "create-commands", "cmd").unwrap();
    let entries = get_config_entries(&config, "myrepo", "remove-commands").unwrap();
    assert!(entries.is_empty());
    let entries = get_config_entries(&config, "otherrepo", "create-commands").unwrap();
    assert!(entries.is_empty());
}

#[test]
fn unset_key_single_lookup_is_missing_key() {
    let dir = tempfile::tempdir().unwrap();
    let path = temp_store_path(&dir);
    let config = open_store(&path, false).unwrap();
    let r = get_config_entry(&config, "myrepo", "create-commands");
    assert!(matches!(r, Err(StoreError::MissingKey)));
}

#[test]
fn single_lookup_returns_last_value() {
    let dir = tempfile::tempdir().unwrap();
    let path = temp_store_path(&dir);
    let mut config = open_store(&path, false).unwrap();
    add_config_entry(&mut config, "myrepo", "open-command", "first").unwrap();
    add_config_entry(&mut config, "myrepo", "open-command", "second").unwrap();
    let v = get_config_entry(&config, "myrepo", "open-command").unwrap();
    assert_eq!(v, "second");
}

#[test]
fn reopen_sees_entries_once() {
    let dir = tempfile::tempdir().unwrap();
    let path = temp_store_path(&dir);
    let mut config = open_store(&path, false).unwrap();
    add_config_entry(&mut config, "myrepo", "create-commands", "cmd one").unwrap();
    drop(config);

    let reopened = open_store(&path, true).unwrap();
    let entries = get_config_entries(&reopened, "myrepo", "create-commands").unwrap();
    assert_eq!(entries, vec!["cmd one".to_string()]);
    let v = get_config_entry(&reopened, "myrepo", "create-commands").unwrap();
    assert_eq!(v, "cmd one");
}

#[test]
fn entries_of_different_repos_stay_apart() {
    let dir = tempfile::tempdir().unwrap();
    let path = temp_store_path(&dir);
    let mut config = open_store(&path, false).unwrap();
    add_config_entry(&mut config, "repoone", "create-commands", "a").unwrap();
    add_config_entry(&mut config, "repotwo", "create-commands", "b").unwrap();
    let one = get_config_entries(&config, "repoone", "create-commands").unwrap();
    let two = get_config_entries(&config, "repotwo", "create-commands").unwrap();
    assert_eq!(one, vec!["a".to_string()]);
    assert_eq!(two, vec!["b".to_string()]);
}

#[test]
fn escaped_characters_round_trip() {
    let dir = tempfile::tempdir().unwrap();
    let path = temp_store_path(&dir);
    let mut config = open_store(&path, false).unwrap();
    let values = vec![
        "a\nb".to_string(),
        "tab\tseparated".to_string(),
        "say \"hi\"".to_string(),
        "back\\slash".to_string(),
        "bell\u{0008}char".to_string(),
        " leading and trailing ".to_string(),
        "semi ; colon # hash".to_string(),
        "".to_string(),
    ];
    for v in &values {
        add_config_entry(&mut config, "myrepo", "create-commands", v).unwrap();
    }
    let entries = get_config_entries(&config, "myrepo", "create-commands").unwrap();
    assert_eq!(entries, values);
}

#[test]
fn newline_value_does_not_leak_a_second_key() {
    let dir = tempfile::tempdir().unwrap();
    let path = temp_store_path(&dir);
    let mut config = open_store(&path, false).unwrap();
    add_config_entry(&mut config, "myrepo", "create-commands", "a\nb").unwrap();
    let entries = get_config_entries(&config, "myrepo", "create-commands").unwrap();
    assert_eq!(entries, vec!["a\nb".to_string()]);
    let stray = get_config_entries(&config, "myrepo", "b").unwrap();
    assert!(stray.is_empty());
}

#[test]
fn valueless_entry_fails_append_and_is_skipped_on_read() {
    let dir = tempfile::tempdir().unwrap();
    let mut file = tempfile::NamedTempFile::new_in(dir.path()).unwrap();
    file.write_all(b"[myrepo]\n\tcreate-commands\n").unwrap();
    let path = file.path().to_str().unwrap().to_string();

    let mut config = open_store(&path, true).unwrap();
    let entries = get_config_entries(&config, "myrepo", "create-commands").unwrap();
    assert!(entries.is_empty());
    let single = get_config_entry(&config, "myrepo", "create-commands");
    assert!(matches!(single, Err(StoreError::MissingKey)));

    let r = add_config_entry(&mut config, "myrepo", "create-commands", "echo hi");
    assert!(matches!(r, Err(StoreError::Backend(_))));
}

#[test]
fn config_path_carries_the_dedicated_file_name() {
    match get_config_path() {
        Ok(p) => assert!(p.ends_with(".gitconfig_wt")),
        Err(e) => assert!(matches!(e, StoreError::Location)),
    }
}

#[test]
fn missing_key_message_is_plain_text() {
    assert_eq!(StoreError::MissingKey.message(), "config value was not found");
    assert_eq!(StoreError::Backend("boom".to_string()).message(), "boom");
    assert_eq!(StoreError::Io("nope".to_string()).message(), "nope");
}
