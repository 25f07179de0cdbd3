use alienv::error::{err_check, Error};
use alienv::record::{
    delete_alias_from_file, marker_text, parse_record, read_all, record_text,
};
use alienv::text::{chars_of, contains, str_eq};

fn file(items: &[&str]) -> Vec<String> {
    items.iter().map(|s| s.to_string()).collect()
}

#[test]
fn record_text_is_exact() {
    assert_eq!(record_text("ll", "ls -la"), "alias ll=\"ls -la\"");
    assert_eq!(record_text("", ""), "alias =\"\"");
    assert_eq!(marker_text("ll"), "alias ll=");
}

#[test]
fn parse_record_reads_name_and_command() {
    let a = parse_record("alias ll=\"ls -la\"").unwrap();
    assert_eq!(a.name, "ll");
    assert_eq!(a.command, "ls -la");
    let b = parse_record("alias e=\"\"").unwrap();
    assert_eq!(b.name, "e");
    assert_eq!(b.command, "");
    let c = parse_record("alias q=\"echo \"a=b\"\"").unwrap();
    assert_eq!(c.name, "q");
    assert_eq!(c.command, "echo \"a=b\"");
    let d = parse_record("alias \u{e9}t\u{e9}=\"\u{fc}ber\"").unwrap();
    assert_eq!(d.name, "\u{e9}t\u{e9}");
    assert_eq!(d.command, "\u{fc}ber");
}

#[test]
fn parse_record_refuses_other_lines() {
    assert!(parse_record("").is_none());
    assert!(parse_record("alias ").is_none());
    assert!(parse_record("alias ll").is_none());
    assert!(parse_record("alias =\"x\"").is_none());
    assert!(parse_record("alias ll=ls").is_none());
    assert!(parse_record("alias ll=\"").is_none());
    assert!(parse_record("alias ll=\"ls").is_none());
    assert!(parse_record("alia ll=\"ls\"").is_none());
    assert!(parse_record(" alias ll=\"ls\"").is_none());
    assert!(parse_record("unalias ll=\"ls\"").is_none());
}

#[test]
fn written_record_is_read_back() {
    let line = record_text("gs", "git status");
    let a = parse_record(&line).unwrap();
    assert_eq!(a.name, "gs");
    assert_eq!(a.command, "git status");
}

#[test]
fn read_all_gives_every_record() {
    let f = file(&["alias ll=\"ls -la\"", "alias gs=\"git status\""]);
    let all = read_all(&f).unwrap();
    assert_eq!(all.len(), 2);
    assert_eq!(all[0].name, "ll");
    assert_eq!(all[0].command, "ls -la");
    assert_eq!(all[1].name, "gs");
    assert_eq!(all[1].command, "git status");
    assert_eq!(read_all(&Vec::new()).unwrap().len(), 0);
}

#[test]
fn read_all_refuses_corrupt_file() {
    let f = file(&["alias ll=\"ls -la\"", "garbage"]);
    assert_eq!(read_all(&f).unwrap_err(), Error::CorruptFile);
    let g = file(&[""]);
    assert_eq!(read_all(&g).unwrap_err(), Error::CorruptFile);
}

#[test]
fn added_alias_is_read_then_removed() {
    let mut f = file(&["alias gs=\"git status\""]);
    f.push(record_text("ll", "ls -la"));
    let all = read_all(&f).unwrap();
    assert!(all.iter().any(|a| a.name == "ll" && a.command == "ls -la"));
    assert!(delete_alias_from_file(&mut f, "ll"));
    let rest = read_all(&f).unwrap();
    assert!(!rest.iter().any(|a| a.name == "ll"));
    assert_eq!(f, file(&["alias gs=\"git status\""]));
}

#[test]
fn removal_of_missing_alias_changes_nothing() {
    let before = file(&["alias ll=\"ls -la\"", "not a record", "alias gs=\"git status\""]);
    let mut f = before.clone();
    assert!(!delete_alias_from_file(&mut f, "zz"));
    assert_eq!(f, before);
    assert!(!delete_alias_from_file(&mut f, "l"));
    assert_eq!(f, before);
    let mut empty: Vec<String> = Vec::new();
    assert!(!delete_alias_from_file(&mut empty, "ll"));
    assert!(empty.is_empty());
}

#[test]
fn removal_takes_every_line_with_the_marker() {
    let mut f = file(&[
        "alias ll=\"ls -la\"",
        "alias gs=\"git status\"",
        "alias ll=\"ls\"",
        "# old: alias ll=x",
        "alias lll=\"ls -lll\"",
    ]);
    assert!(delete_alias_from_file(&mut f, "ll"));
    assert_eq!(f, file(&["alias gs=\"git status\"", "alias lll=\"ls -lll\""]));
}

#[test]
fn contains_finds_text() {
    assert!(contains("alias ll=\"ls\"", "alias ll="));
    assert!(contains("abc", ""));
    assert!(contains("", ""));
    assert!(contains("abc", "c"));
    assert!(contains("abc", "abc"));
    assert!(!contains("abc", "abcd"));
    assert!(!contains("abc", "ac"));
    assert!(!contains("", "a"));
    assert!(contains("x\u{e9}y", "\u{e9}y"));
}

#[test]
fn text_helpers_compare_characters() {
    assert_eq!(chars_of("a\u{e9}b"), vec!['a', '\u{e9}', 'b']);
    assert_eq!(chars_of(""), Vec::<char>::new());
    assert!(str_eq("abc", "abc"));
    assert!(str_eq("", ""));
    assert!(!str_eq("abc", "abd"));
    assert!(!str_eq("abc", "ab"));
}

#[test]
fn err_check_replaces_the_error() {
    let ok: Result<u32, String> = Ok(7);
    let bad: Result<u32, String> = Err("disk".to_string());
    assert_eq!(err_check(ok, Error::FileError), Ok(7));
    assert_eq!(err_check(bad, Error::FileError), Err(Error::FileError));
}
