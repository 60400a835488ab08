use mod_packer::paths::{relative_to, PathParts};
use mod_packer::walk::{
    archive_entry, archive_path, is_filename_eq, is_hidden, is_in_excludes, walkdir_filter,
    EntryKind,
};

fn parts(text: &[&str]) -> PathParts {
    PathParts {
        parts: text.iter().map(|s| s.to_string()).collect(),
    }
}

fn name(s: &str) -> Option<String> {
    Some(s.to_string())
}

/// Whether the walk from `.` would yield `path`: the entry and every
/// directory above it pass the filter.
fn walk_yields(path: &[&str], zip: &str, excludes: &Vec<PathParts>) -> bool {
    (1..=path.len()).all(|k| {
        let prefix = parts(&path[..k]);
        !walkdir_filter(&prefix, &name(path[k - 1]), zip, excludes)
    })
}

#[test]
fn filename_eq_compares_known_names() {
    assert!(is_filename_eq(&name("foo_1.0.0.zip"), "foo_1.0.0.zip"));
    assert!(!is_filename_eq(&name("foo_1.0.0.zip"), "foo_1.0.1.zip"));
    assert!(!is_filename_eq(&None, "foo_1.0.0.zip"));
    assert!(!is_filename_eq(&name(""), "a"));
}

#[test]
fn hidden_entries_start_with_a_dot() {
    assert!(is_hidden(&parts(&[".", ".git"]), &name(".git")));
    assert!(is_hidden(&parts(&[".", "src", ".env"]), &name(".env")));
    assert!(!is_hidden(&parts(&[".", "src"]), &name("src")));
    assert!(!is_hidden(&parts(&[".", "src"]), &None));
    assert!(!is_hidden(&parts(&["."]), &name(".")));
    assert!(!is_hidden(&parts(&[".", "a.b"]), &name("a.b")));
}

#[test]
fn excludes_match_whole_components() {
    let excludes = vec![parts(&[".", "build"]), parts(&[".", "docs", "draft.txt"])];
    assert!(is_in_excludes(&parts(&[".", "build"]), &excludes));
    assert!(is_in_excludes(&parts(&[".", "build", "out", "x.o"]), &excludes));
    assert!(is_in_excludes(&parts(&[".", "docs", "draft.txt"]), &excludes));
    assert!(!is_in_excludes(&parts(&[".", "builder"]), &excludes));
    assert!(!is_in_excludes(&parts(&[".", "docs"]), &excludes));
    assert!(!is_in_excludes(&parts(&["."]), &excludes));
    assert!(!is_in_excludes(&parts(&[".", "build"]), &vec![]));
}

#[test]
fn exclusion_without_leading_dot_matches_the_same_entries() {
    let excludes = vec![parts(&["build"])];
    assert!(is_in_excludes(&parts(&[".", "build"]), &excludes));
    assert!(is_in_excludes(&parts(&[".", "build", "a.txt"]), &excludes));
    assert!(!is_in_excludes(&parts(&[".", "builder"]), &excludes));
    assert!(!is_in_excludes(&parts(&["."]), &excludes));
    assert!(!walkdir_filter(&parts(&["."]), &name("."), "m_1.0.0.zip", &excludes));
    assert!(walkdir_filter(&parts(&[".", "build"]), &name("build"), "m_1.0.0.zip", &excludes));
}

#[test]
fn absolute_exclusion_under_the_root_matches() {
    let root = parts(&["/", "home", "u", "mymod"]);
    let absolute = relative_to(&parts(&["/", "home", "u", "mymod", "build"]), &root);
    assert_eq!(absolute.parts, vec!["build".to_string()]);
    let excludes = vec![absolute];
    assert!(is_in_excludes(&parts(&[".", "build", "a.txt"]), &excludes));
    let elsewhere = relative_to(&parts(&["/", "tmp", "build"]), &root);
    assert_eq!(elsewhere.parts, vec!["/", "tmp", "build"]);
    assert!(!is_in_excludes(&parts(&[".", "build"]), &vec![elsewhere]));
    let relative = relative_to(&parts(&["build"]), &root);
    assert_eq!(relative.parts, vec!["build".to_string()]);
}

#[test]
fn filter_rejects_output_hidden_and_excluded() {
    let zip = "foo_1.0.0.zip";
    let excludes = vec![parts(&[".", "build"])];
    assert!(walkdir_filter(&parts(&[".", zip]), &name(zip), zip, &excludes));
    assert!(walkdir_filter(&parts(&[".", ".git"]), &name(".git"), zip, &excludes));
    assert!(walkdir_filter(&parts(&[".", "build"]), &name("build"), zip, &excludes));
    assert!(!walkdir_filter(&parts(&["."]), &name("."), zip, &excludes));
    assert!(!walkdir_filter(&parts(&[".", "src"]), &name("src"), zip, &excludes));
    assert!(!walkdir_filter(&parts(&[".", "foo_0.9.0.zip"]), &name("foo_0.9.0.zip"), zip, &excludes));
}

#[test]
fn excluded_paths_are_never_yielded() {
    let zip = "m_1.0.0.zip";
    let excludes = vec![parts(&[".", "assets", "raw"]), parts(&[".", "notes.txt"])];
    assert!(!walk_yields(&[".", "assets", "raw"], zip, &excludes));
    assert!(!walk_yields(&[".", "assets", "raw", "a.png"], zip, &excludes));
    assert!(!walk_yields(&[".", "notes.txt"], zip, &excludes));
    assert!(walk_yields(&[".", "assets", "cooked", "a.png"], zip, &excludes));
    assert!(walk_yields(&[".", "assets"], zip, &excludes));
}

#[test]
fn output_file_is_never_yielded_on_a_rerun() {
    let zip = "m_1.0.0.zip";
    let excludes = vec![];
    assert!(!walk_yields(&[".", zip], zip, &excludes));
    assert!(!walk_yields(&[".", "sub", zip], zip, &excludes));
    assert!(walk_yields(&[".", "m_0.9.0.zip"], zip, &excludes));
}

#[test]
fn hidden_entries_are_skipped_and_the_rest_kept() {
    let zip = "m_1.0.0.zip";
    let excludes = vec![];
    let candidates: Vec<Vec<&str>> = vec![
        vec![".", ".git"],
        vec![".", ".git", "HEAD"],
        vec![".", ".env"],
        vec![".", "src"],
        vec![".", "src", "main.txt"],
    ];
    let files: Vec<String> = candidates
        .iter()
        .filter(|p| walk_yields(p, zip, &excludes))
        .filter(|p| p.last() == Some(&"main.txt"))
        .map(|p| archive_path("m_1.0.0", &parts(p)))
        .collect();
    assert_eq!(files, vec!["m_1.0.0/src/main.txt".to_string()]);
}

#[test]
fn excluded_directory_prunes_everything_below() {
    let zip = "m_1.0.0.zip";
    let excludes = vec![parts(&[".", "build"])];
    let below: Vec<String> = (0..10_000).map(|i| format!("f{i}.o")).collect();
    let reached = below
        .iter()
        .filter(|f| walk_yields(&[".", "build", f.as_str()], zip, &excludes))
        .count();
    assert_eq!(reached, 0);
}

#[test]
fn archive_paths_are_rooted_under_the_qualified_name() {
    assert_eq!(archive_path("foo_1.2.3", &parts(&[".", "info.json"])), "foo_1.2.3/info.json");
    assert_eq!(
        archive_path("foo_1.2.3", &parts(&[".", "graphics", "icons", "a.png"])),
        "foo_1.2.3/graphics/icons/a.png"
    );
}

#[test]
fn archive_entries_carry_their_kind() {
    let f = archive_entry("m_2.0.0", &parts(&[".", "data.lua"]), true);
    assert_eq!(f.archive_path, "m_2.0.0/data.lua");
    assert_eq!(f.kind, EntryKind::File);
    let d = archive_entry("m_2.0.0", &parts(&[".", "locale", "en"]), false);
    assert_eq!(d.archive_path, "m_2.0.0/locale/en");
    assert_eq!(d.kind, EntryKind::Directory);
}
