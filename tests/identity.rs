use mod_packer::identity::InfoJson;
use mod_packer::paths::{in_dir_path, join_path, PathParts};

fn parts(text: &[&str]) -> PathParts {
    PathParts {
        parts: text.iter().map(|s| s.to_string()).collect(),
    }
}

#[test]
fn qualified_name_and_file_name() {
    let info = InfoJson {
        name: "foo".to_string(),
        version: "1.2.3".to_string(),
    };
    assert_eq!(info.to_string(), "foo_1.2.3");
    assert_eq!(info.zip_file_name(), "foo_1.2.3.zip");
}

#[test]
fn paths_join_with_one_separator() {
    assert_eq!(join_path("/mods", "a.zip"), "/mods/a.zip");
    assert_eq!(join_path("/mods/", "a.zip"), "/mods/a.zip");
    assert_eq!(join_path("", "a.zip"), "a.zip");
    assert_eq!(in_dir_path("/mods", "a.zip"), "/mods/a.zip");
    assert_eq!(in_dir_path("/mods/", "a.zip"), "/mods//a.zip");
}

#[test]
fn prefixes_compare_components() {
    let p = parts(&[".", "a", "b"]);
    assert!(p.starts_with(&parts(&[".", "a"])));
    assert!(p.starts_with(&parts(&[])));
    assert!(p.starts_with(&p));
    assert!(!p.starts_with(&parts(&[".", "ab"])));
    assert!(!parts(&[".", "a"]).starts_with(&p));
    assert!(parts(&[".", "a", "b"]).starts_with_rel(&parts(&["a"])));
    assert!(parts(&["a", "b"]).starts_with_rel(&parts(&[".", "a"])));
    assert!(parts(&[".", "a"]).starts_with_rel(&parts(&["."])));
    assert!(!parts(&[".", "a"]).starts_with_rel(&parts(&["b"])));
    assert!(!parts(&["."]).starts_with_rel(&parts(&["a"])));
    assert!(parts(&["."]).is_cur_dir());
    assert!(!parts(&[".", "a"]).is_cur_dir());
    assert!(!parts(&[".."]).is_cur_dir());
}
