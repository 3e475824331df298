use greentic_interfaces_guest::wit_paths::{
    canonical_wit_root_from, candidate_root, candidate_suffix, has_wit_extension, join_path,
    DirEntry, ScanStep, WitRootStep, WitScan, CANDIDATE_COUNT,
};

fn selected(step: WitRootStep) -> Option<String> {
    match step {
        WitRootStep::Select(p) => Some(String::from_utf8(p).unwrap()),
        _ => None,
    }
}

fn probed(step: WitRootStep) -> Option<String> {
    match step {
        WitRootStep::Probe(p) => Some(String::from_utf8(p).unwrap()),
        _ => None,
    }
}

fn file(path: &'static str) -> DirEntry<&'static str> {
    let name = path.rsplit('/').next().unwrap();
    DirEntry { path, file_name: name.as_bytes().to_vec(), is_dir: false }
}

fn dir(path: &'static str) -> DirEntry<&'static str> {
    let name = path.rsplit('/').next().unwrap();
    DirEntry { path, file_name: name.as_bytes().to_vec(), is_dir: true }
}

#[test]
fn prefers_bundled_wit_root_over_workspace_paths() {
    // Both the bundle inside the crate and the workspace root hold WIT files.
    let manifest_dir = b"/tmp/bundled-preferred/crate";
    let first = canonical_wit_root_from(manifest_dir, &[]);
    assert_eq!(probed(first).as_deref(), Some("/tmp/bundled-preferred/crate/wit"));
    let step = canonical_wit_root_from(manifest_dir, &[true]);
    assert_eq!(selected(step).as_deref(), Some("/tmp/bundled-preferred/crate/wit"));
    // Whatever the workspace candidates would answer, the bundle wins.
    let step = canonical_wit_root_from(manifest_dir, &[true, true, true, true]);
    assert_eq!(selected(step).as_deref(), Some("/tmp/bundled-preferred/crate/wit"));
}

#[test]
fn falls_back_to_workspace_wit_when_bundle_is_absent() {
    let manifest_dir = b"/tmp/workspace-fallback/crates/greentic-interfaces-guest";
    let step = canonical_wit_root_from(manifest_dir, &[false]);
    assert_eq!(
        probed(step).as_deref(),
        Some("/tmp/workspace-fallback/crates/greentic-interfaces-guest/../../wit")
    );
    let step = canonical_wit_root_from(manifest_dir, &[false, true]);
    assert_eq!(
        selected(step).as_deref(),
        Some("/tmp/workspace-fallback/crates/greentic-interfaces-guest/../../wit")
    );
}

#[test]
fn probes_every_candidate_in_order_then_gives_up() {
    let manifest_dir = b"/w/crates/greentic-interfaces-guest";
    let expected = [
        "/w/crates/greentic-interfaces-guest/wit",
        "/w/crates/greentic-interfaces-guest/../../wit",
        "/w/crates/greentic-interfaces-guest/../greentic-interfaces/wit",
        "/w/crates/greentic-interfaces-guest/../../../crates/greentic-interfaces/wit",
    ];
    let mut answers: Vec<bool> = Vec::new();
    for want in expected {
        let step = canonical_wit_root_from(manifest_dir, &answers);
        assert_eq!(probed(step).as_deref(), Some(want));
        answers.push(false);
    }
    assert!(matches!(canonical_wit_root_from(manifest_dir, &answers), WitRootStep::Exhausted));
    answers.push(true);
    assert!(matches!(canonical_wit_root_from(manifest_dir, &answers), WitRootStep::Exhausted));
}

#[test]
fn selects_sibling_and_package_verify_candidates() {
    let manifest_dir = b"/w/crates/greentic-interfaces-guest";
    let step = canonical_wit_root_from(manifest_dir, &[false, false, true]);
    assert_eq!(
        selected(step).as_deref(),
        Some("/w/crates/greentic-interfaces-guest/../greentic-interfaces/wit")
    );
    let step = canonical_wit_root_from(manifest_dir, &[false, false, false, true]);
    assert_eq!(
        selected(step).as_deref(),
        Some("/w/crates/greentic-interfaces-guest/../../../crates/greentic-interfaces/wit")
    );
}

#[test]
fn selection_is_final_once_a_candidate_holds_wit() {
    let manifest_dir = b"/w/c";
    let before = selected(canonical_wit_root_from(manifest_dir, &[false, true]));
    let after = selected(canonical_wit_root_from(manifest_dir, &[false, true, false, true, true]));
    assert_eq!(before.as_deref(), Some("/w/c/../../wit"));
    assert_eq!(before, after);
}

#[test]
fn candidates_join_relative_paths_onto_the_manifest_dir() {
    assert_eq!(CANDIDATE_COUNT, 4);
    assert_eq!(candidate_suffix(0), "wit");
    assert_eq!(candidate_suffix(1), "../../wit");
    assert_eq!(candidate_suffix(2), "../greentic-interfaces/wit");
    assert_eq!(candidate_suffix(3), "../../../crates/greentic-interfaces/wit");
    assert_eq!(candidate_root(b"/m", 0), b"/m/wit".to_vec());
    assert_eq!(candidate_root(b"/m/", 1), b"/m/../../wit".to_vec());
    assert_eq!(candidate_root(b"", 0), b"wit".to_vec());
}

#[test]
fn join_path_adds_a_separator_only_when_needed() {
    assert_eq!(join_path(b"/a/b", b"wit"), b"/a/b/wit".to_vec());
    assert_eq!(join_path(b"/a/b/", b"wit"), b"/a/b/wit".to_vec());
    assert_eq!(join_path(b"", b"wit"), b"wit".to_vec());
    assert_eq!(join_path(b"/", b"x"), b"/x".to_vec());
}

#[test]
fn wit_extension_follows_the_last_dot() {
    assert!(has_wit_extension(b"package.wit"));
    assert!(has_wit_extension(b"a.wit"));
    assert!(has_wit_extension(b"..wit"));
    assert!(has_wit_extension(b"world.v1.wit"));
    assert!(!has_wit_extension(b".wit"));
    assert!(!has_wit_extension(b"wit"));
    assert!(!has_wit_extension(b""));
    assert!(!has_wit_extension(b"a.WIT"));
    assert!(!has_wit_extension(b"a.wits"));
    assert!(!has_wit_extension(b"a.wit.bak"));
    assert!(!has_wit_extension(b"awit"));
}

#[test]
fn scan_visits_directories_depth_first_and_finds_wit() {
    let mut scan = WitScan::new("/root");
    assert!(matches!(scan.step(Vec::new()), ScanStep::ReadDir("/root")));
    let listing = vec![dir("/root/a"), file("/root/readme.md"), dir("/root/b")];
    // The directory listed last is searched first.
    assert!(matches!(scan.step(listing), ScanStep::ReadDir("/root/b")));
    assert!(matches!(scan.step(vec![dir("/root/b/c")]), ScanStep::ReadDir("/root/b/c")));
    assert!(matches!(scan.step(vec![file("/root/b/c/notes.txt")]), ScanStep::ReadDir("/root/a")));
    let listing = vec![file("/root/a/x.txt"), file("/root/a/package.wit")];
    assert!(matches!(scan.step(listing), ScanStep::Found));
}

#[test]
fn scan_is_exhausted_when_no_wit_file_exists() {
    let mut scan = WitScan::new("/root");
    assert!(matches!(scan.step(Vec::new()), ScanStep::ReadDir("/root")));
    let listing = vec![file("/root/.wit"), dir("/root/sub")];
    assert!(matches!(scan.step(listing), ScanStep::ReadDir("/root/sub")));
    // A directory named like a WIT file is descended into, not counted.
    assert!(matches!(scan.step(vec![dir("/root/sub/x.wit")]), ScanStep::ReadDir("/root/sub/x.wit")));
    assert!(matches!(scan.step(Vec::new()), ScanStep::Exhausted));
}

#[test]
fn scan_reports_a_wit_file_listed_after_directories() {
    let mut scan = WitScan::new(0u32);
    assert!(matches!(scan.step(Vec::new()), ScanStep::ReadDir(0)));
    let listing = vec![
        DirEntry { path: 1u32, file_name: b"sub".to_vec(), is_dir: true },
        DirEntry { path: 2u32, file_name: b"types.wit".to_vec(), is_dir: false },
    ];
    assert!(matches!(scan.step(listing), ScanStep::Found));
}
