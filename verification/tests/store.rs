use alienv::error::Error;
use alienv::name::is_valid_env_name;
use alienv::store::{get_alias_file, get_root_path, Store};

fn lines(items: &[&str]) -> Vec<String> {
    items.iter().map(|s| s.to_string()).collect()
}

#[test]
fn valid_names_are_accepted() {
    assert!(is_valid_env_name("work"));
    assert!(is_valid_env_name("a.b_c-D9"));
    assert!(is_valid_env_name("-"));
}

#[test]
fn invalid_names_are_rejected() {
    assert!(!is_valid_env_name(""));
    assert!(!is_valid_env_name("bad name!"));
    assert!(!is_valid_env_name("NO ENV"));
    assert!(!is_valid_env_name("a/b"));
    assert!(!is_valid_env_name("caf\u{e9}"));
    assert!(!is_valid_env_name("work "));
}

#[test]
fn created_environment_exists() {
    let mut store = Store::new();
    assert!(!store.env_exists("work"));
    assert_eq!(store.create("work"), Ok(()));
    assert!(store.env_exists("work"));
    assert_eq!(store.aliases("work"), Some(&Vec::new()));
}

#[test]
fn deleted_environment_is_gone() {
    let mut store = Store::new();
    assert_eq!(store.create("work"), Ok(()));
    assert_eq!(store.create("home"), Ok(()));
    assert_eq!(store.delete("work"), Ok(()));
    assert!(!store.env_exists("work"));
    assert!(store.env_exists("home"));
    assert_eq!(store.list(), lines(&["home"]));
}

#[test]
fn create_refuses_invalid_name() {
    let mut store = Store::new();
    assert_eq!(store.create("bad name!"), Err(Error::InvalidName));
    assert_eq!(store.create("NO ENV"), Err(Error::InvalidName));
    assert_eq!(store.list(), Vec::<String>::new());
}

#[test]
fn create_refuses_existing_name() {
    let mut store = Store::new();
    assert_eq!(store.create("work"), Ok(()));
    assert_eq!(store.create("work"), Err(Error::AlreadyExists));
    assert_eq!(store.list(), lines(&["work"]));
}

#[test]
fn delete_refuses_missing_name() {
    let mut store = Store::new();
    assert_eq!(store.create("work"), Ok(()));
    assert_eq!(store.delete("play"), Err(Error::NotFound));
    assert_eq!(store.list(), lines(&["work"]));
}

#[test]
fn list_keeps_the_order_of_insertion() {
    let mut store = Store::new();
    assert!(store.insert("zeta".to_string(), lines(&["alias a=\"b\""])));
    assert!(store.insert("alpha".to_string(), Vec::new()));
    assert!(!store.insert("zeta".to_string(), Vec::new()));
    assert_eq!(store.list(), lines(&["zeta", "alpha"]));
    assert_eq!(store.aliases("zeta"), Some(&lines(&["alias a=\"b\""])));
    assert_eq!(store.aliases("none"), None);
}

#[test]
fn append_alias_needs_the_environment() {
    let mut store = Store::new();
    assert_eq!(store.append_alias("work", "ll", "ls -la"), Err(Error::FileError));
    assert_eq!(store.create("work"), Ok(()));
    assert_eq!(store.append_alias("work", "ll", "ls -la"), Ok(()));
    assert_eq!(store.append_alias("work", "ll", "ls -l"), Ok(()));
    assert_eq!(
        store.aliases("work"),
        Some(&lines(&["alias ll=\"ls -la\"", "alias ll=\"ls -l\""]))
    );
}

#[test]
fn remove_alias_in_the_store() {
    let mut store = Store::new();
    assert_eq!(store.remove_alias("work", "ll"), Err(Error::FileError));
    assert!(store.insert(
        "work".to_string(),
        lines(&["alias ll=\"ls -la\"", "alias gs=\"git status\"", "alias ll=\"ls\""])
    ));
    assert!(store.insert("home".to_string(), lines(&["alias ll=\"ls\""])));
    assert_eq!(store.remove_alias("work", "zz"), Ok(false));
    assert_eq!(store.remove_alias("work", "ll"), Ok(true));
    assert_eq!(store.aliases("work"), Some(&lines(&["alias gs=\"git status\""])));
    assert_eq!(store.aliases("home"), Some(&lines(&["alias ll=\"ls\""])));
    assert_eq!(store.list(), lines(&["work", "home"]));
}

#[test]
fn storage_paths_are_laid_out_by_environment() {
    assert_eq!(get_root_path(Some("/home/u")), Ok(lines(&["/home/u", ".alienv"])));
    assert_eq!(
        get_alias_file(Some("/home/u"), "work"),
        Ok(lines(&["/home/u", ".alienv", "work", "aliases"]))
    );
}

#[test]
fn storage_needs_a_home_directory() {
    assert_eq!(get_root_path(None), Err(Error::FileError));
    assert_eq!(get_alias_file(None, "work"), Err(Error::FileError));
}
