use perfdroid::adb::{
    adb_binary_name, adb_platform_dir, bundled_adb_relative_path, candidate_roots, push_ancestors,
    workspace_adb_dir, workspace_adb_path, workspace_root, HostOs, HostPath, ADB_SERVER_PORT,
};

fn path(root: &str, parts: &[&str]) -> HostPath {
    HostPath { root: root.to_string(), parts: parts.iter().map(|p| p.to_string()).collect() }
}

fn text(path: &HostPath) -> String {
    format!("{}{}", path.root, path.parts.join("/"))
}

#[test]
fn bundled_adb_path_ends_with_expected_host_binary() {
    for os in [HostOs::Windows, HostOs::Mac, HostOs::Linux] {
        let root = path("/", &["opt", "perfdroid"]);
        let whole = workspace_adb_path(&root, os);
        let tail = bundled_adb_relative_path(os);
        assert!(whole.parts.ends_with(&tail.parts));
    }
}

#[test]
fn workspace_root_contains_bundled_adb_directory() {
    for os in [HostOs::Windows, HostOs::Mac, HostOs::Linux] {
        let root = path("/", &["opt", "perfdroid"]);
        let mut expected = root.clone();
        expected.parts.push("adb".to_string());
        expected.parts.push(adb_platform_dir(os).to_string());
        assert_eq!(text(&workspace_adb_dir(&root, os)), text(&expected));
    }
}

#[test]
fn bundled_adb_relative_path_is_stable() {
    for os in [HostOs::Windows, HostOs::Mac, HostOs::Linux] {
        let expected = path("", &["adb", adb_platform_dir(os), adb_binary_name(os)]);
        assert_eq!(text(&bundled_adb_relative_path(os)), text(&expected));
    }
    assert_eq!(text(&bundled_adb_relative_path(HostOs::Linux)), "adb/linux/adb");
    assert_eq!(text(&bundled_adb_relative_path(HostOs::Mac)), "adb/mac/adb");
    assert_eq!(text(&bundled_adb_relative_path(HostOs::Windows)), "adb/win/adb.exe");
    assert_eq!(ADB_SERVER_PORT, 5037);
}

#[test]
fn candidates_climb_from_the_program_and_the_working_directory() {
    let roots = candidate_roots(
        &Some(path("/", &["a", "b"])),
        &Some(path("/", &["a", "c"])),
        &path("/", &["src"]),
    );
    let texts: Vec<String> = roots.iter().map(text).collect();
    assert_eq!(texts, vec!["/a/b", "/a", "/", "/a/c", "/src"]);
    assert_eq!(candidate_roots(&None, &None, &path("/", &["src"])).len(), 1);
}

#[test]
fn ancestors_are_not_listed_twice() {
    let mut roots = vec![path("/", &[])];
    push_ancestors(&path("/", &["x"]), &mut roots);
    push_ancestors(&path("/", &["x"]), &mut roots);
    let texts: Vec<String> = roots.iter().map(text).collect();
    assert_eq!(texts, vec!["/", "/x"]);
}

#[test]
fn the_first_candidate_with_the_tool_is_the_root() {
    let roots = vec![path("/", &["a"]), path("/", &["b"]), path("/", &["c"])];
    let source = path("/", &["src"]);
    assert_eq!(text(&workspace_root(&roots, &vec![false, true, true], &source)), "/b");
    assert_eq!(text(&workspace_root(&roots, &vec![false, false, false], &source)), "/src");
}
