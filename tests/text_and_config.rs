use oxc_lint_core::config::{ConfigEntry, ConfigValue};
use oxc_lint_core::text::{decimal_text, display_relative, push_lines, relative_path, to_forward_slashes};

#[test]
fn relative_paths_strip_whole_directories() {
    let cwd = "/home/p".to_string();
    assert_eq!(relative_path(&"/home/p/src/a.js".to_string(), &cwd), "src/a.js");
    assert_eq!(relative_path(&"/home/p".to_string(), &cwd), "");
    assert_eq!(relative_path(&"/home/pq/a.js".to_string(), &cwd), "/home/pq/a.js");
    assert_eq!(relative_path(&"/other/a.js".to_string(), &cwd), "/other/a.js");
    assert_eq!(relative_path(&"/home/p/a.js".to_string(), &String::new()), "/home/p/a.js");
    assert_eq!(relative_path(&"/home/p/a.js".to_string(), &"/home/p/".to_string()), "a.js");
    assert_eq!(relative_path(&"/home/p".to_string(), &"/home/p/".to_string()), "");
    assert_eq!(relative_path(&"/a.js".to_string(), &"/".to_string()), "a.js");
    assert_eq!(relative_path(&"/".to_string(), &"/".to_string()), "");
}

#[test]
fn separators_and_digits() {
    assert_eq!(to_forward_slashes("a\\b\\c.js"), "a/b/c.js");
    assert_eq!(to_forward_slashes(""), "");
    assert_eq!(display_relative(&"/p\\x.js".to_string(), &"/".to_string()), "p/x.js");
    assert_eq!(decimal_text(0), "0");
    assert_eq!(decimal_text(7), "7");
    assert_eq!(decimal_text(1205), "1205");
    assert_eq!(decimal_text(u64::MAX), u64::MAX.to_string());
}

#[test]
fn lines_are_joined_with_newlines() {
    let mut out = "head:".to_string();
    push_lines(&mut out, &vec!["a".to_string(), "b".to_string(), "c".to_string()]);
    assert_eq!(out, "head:a\nb\nc");
    let mut empty = String::new();
    push_lines(&mut empty, &Vec::new());
    assert_eq!(empty, "");
}

#[test]
fn config_lookups() {
    let v = ConfigValue::Array(vec![ConfigValue::Object(vec![
        ConfigEntry { key: "k".to_string(), value: ConfigValue::Bool(true) },
        ConfigEntry { key: "k".to_string(), value: ConfigValue::Bool(false) },
        ConfigEntry { key: "n".to_string(), value: ConfigValue::Number(Some(4)) },
        ConfigEntry { key: "s".to_string(), value: ConfigValue::Str("x".to_string()) },
    ])]);
    let obj = v.get_index(0).unwrap();
    assert!(v.get_index(1).is_none());
    assert!(obj.get_index(0).is_none());
    assert_eq!(obj.get_key(&"k".to_string()).unwrap().as_bool(), Some(true));
    assert_eq!(obj.get_key(&"n".to_string()).unwrap().as_u64(), Some(4));
    assert_eq!(obj.get_key(&"s".to_string()).unwrap().as_str().map(|s| s.as_str()), Some("x"));
    assert!(obj.get_key(&"missing".to_string()).is_none());
    assert!(v.get_key(&"k".to_string()).is_none());
    assert_eq!(v.as_array().map(|a| a.len()), Some(1));
    assert_eq!(ConfigValue::Number(None).as_u64(), None);
    assert_eq!(ConfigValue::Null.as_bool(), None);
}
