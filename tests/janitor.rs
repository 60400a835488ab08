use mod_packer::identity::InfoJson;
use mod_packer::janitor::{
    make_glob_str, plan_cleanup, remove_old_versions, CleanupError, DirItem, ItemKind,
};

fn item(name: &str, kind: ItemKind) -> DirItem {
    DirItem {
        name: name.to_string(),
        kind,
    }
}

fn info(name: &str, version: &str) -> InfoJson {
    InfoJson {
        name: name.to_string(),
        version: version.to_string(),
    }
}

#[test]
fn glob_string_has_the_version_shape() {
    assert_eq!(
        make_glob_str("/home/u/.factorio/mods", "foo"),
        "/home/u/.factorio/mods/foo_*[0-9].*[0-9].*[0-9].zip"
    );
    assert_eq!(make_glob_str(".", "bar"), "./bar_*[0-9].*[0-9].*[0-9].zip");
}

#[test]
fn sweep_removes_only_the_mods_own_versions() {
    let listing = vec![
        item("foo_1.0.0.zip", ItemKind::File),
        item("foo_1.2.3.zip", ItemKind::File),
        item("bar_1.0.0.zip", ItemKind::File),
    ];
    let stale = remove_old_versions("/mods", "foo", &listing).unwrap();
    let paths: Vec<&str> = stale.iter().map(|m| m.path.as_str()).collect();
    assert_eq!(paths, vec!["/mods/foo_1.0.0.zip", "/mods/foo_1.2.3.zip"]);
    assert!(stale.iter().all(|m| m.remove));
    assert_eq!(stale[0].name, "foo_1.0.0.zip");
    assert_eq!(stale[1].name, "foo_1.2.3.zip");

    let plan = plan_cleanup("/mods", &info("foo", "2.0.0"), false, &listing).unwrap();
    let names: Vec<&str> = plan.stale.iter().map(|m| m.name.as_str()).collect();
    assert_eq!(names, vec!["foo_1.0.0.zip", "foo_1.2.3.zip"]);
    assert_eq!(plan.output_path, "/mods/foo_2.0.0.zip");
    assert_eq!(plan.existing_output, None);
}

#[test]
fn sweep_ignores_names_without_three_numbers() {
    let listing = vec![
        item("foo_1.0.zip", ItemKind::File),
        item("foo_1.0.0.zip.bak", ItemKind::File),
        item("foo.zip", ItemKind::File),
        item("foo_1.0.0.zip", ItemKind::File),
    ];
    let stale = remove_old_versions("/mods", "foo", &listing).unwrap();
    assert_eq!(stale.len(), 1);
    assert_eq!(stale[0].name, "foo_1.0.0.zip");
}

#[test]
fn matching_directory_is_reported_not_removed() {
    let listing = vec![
        item("foo_0.1.0.zip", ItemKind::Directory),
        item("foo_0.2.0.zip", ItemKind::File),
    ];
    let stale = remove_old_versions("/mods", "foo", &listing).unwrap();
    assert_eq!(stale.len(), 2);
    assert_eq!(stale[0].path, "/mods/foo_0.1.0.zip");
    assert!(!stale[0].remove);
    assert!(stale[1].remove);
}

#[test]
fn bad_pattern_is_an_error() {
    let listing = vec![item("x_1.0.0.zip", ItemKind::File)];
    assert!(matches!(
        remove_old_versions("/mods", "x**", &listing),
        Err(CleanupError::BadPattern)
    ));
    assert!(matches!(
        plan_cleanup("/mods", &info("x**", "1.0.0"), false, &listing),
        Err(CleanupError::BadPattern)
    ));
    let kept = plan_cleanup("/mods", &info("x**", "1.0.0"), true, &listing).unwrap();
    assert!(kept.stale.is_empty());
}

#[test]
fn keeping_old_versions_still_clears_the_output_path() {
    let listing = vec![
        item("foo_1.0.0.zip", ItemKind::File),
        item("foo_2.0.0.zip", ItemKind::File),
    ];
    let plan = plan_cleanup("/mods", &info("foo", "2.0.0"), true, &listing).unwrap();
    assert!(plan.stale.is_empty());
    assert_eq!(plan.existing_output, Some(ItemKind::File));
    assert_eq!(plan.output_path, "/mods/foo_2.0.0.zip");
}

#[test]
fn sweep_already_removes_the_current_version() {
    let listing = vec![item("foo_2.0.0.zip", ItemKind::File)];
    let plan = plan_cleanup("/mods", &info("foo", "2.0.0"), false, &listing).unwrap();
    assert_eq!(plan.stale.len(), 1);
    assert_eq!(plan.existing_output, None);
}

#[test]
fn directory_at_the_output_path_is_reported() {
    let listing = vec![item("foo_2.0.0.zip", ItemKind::Directory)];
    let plan = plan_cleanup("/mods", &info("foo", "2.0.0"), false, &listing).unwrap();
    assert_eq!(plan.stale.len(), 1);
    assert!(!plan.stale[0].remove);
    assert_eq!(plan.existing_output, Some(ItemKind::Directory));
}

#[test]
fn unversioned_output_is_cleared_by_the_final_purge() {
    let listing = vec![item("foo_dev.zip", ItemKind::File)];
    let plan = plan_cleanup("/mods", &info("foo", "dev"), false, &listing).unwrap();
    assert!(plan.stale.is_empty());
    assert_eq!(plan.existing_output, Some(ItemKind::File));
}

#[test]
fn second_run_finds_only_its_own_output() {
    let first = vec![
        item("foo_1.0.0.zip", ItemKind::File),
        item("bar_1.0.0.zip", ItemKind::File),
    ];
    let plan = plan_cleanup("/mods", &info("foo", "2.0.0"), false, &first).unwrap();
    assert_eq!(plan.stale.len(), 1);
    // the directory after the first run
    let second = vec![
        item("bar_1.0.0.zip", ItemKind::File),
        item("foo_2.0.0.zip", ItemKind::File),
    ];
    let again = plan_cleanup("/mods", &info("foo", "2.0.0"), false, &second).unwrap();
    let names: Vec<&str> = again.stale.iter().map(|m| m.name.as_str()).collect();
    assert_eq!(names, vec!["foo_2.0.0.zip"]);
    assert_eq!(again.existing_output, None);
}
