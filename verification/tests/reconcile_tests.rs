use gamesync::manifest::{FileDetails, GameManifestLocal, GameManifestRemote};
use gamesync::reconcile::{calculate_real_total_downloaded, check_missing_files,
    clean_up_directory, remove_obsolete_files};

fn entry(name: &str, hash: &str, size: u64) -> FileDetails {
    FileDetails::new(name.to_string(), hash.to_string(), size)
}

fn manifest_with(files: Vec<FileDetails>) -> GameManifestLocal {
    GameManifestLocal {
        pathInstallLocation: "/games/demo".to_string(),
        gameId: 1,
        gameTitle: "Demo".to_string(),
        gameBinarySize: 100,
        version: "1.0".to_string(),
        files,
    }
}

fn names(v: Vec<&str>) -> Vec<String> {
    v.into_iter().map(|s| s.to_string()).collect()
}

#[test]
fn remove_obsolete_drops_changed_and_retired_entries() {
    let mut local = manifest_with(vec![entry("A", "hashX", 10), entry("B", "hashY", 20)]);
    let remote = GameManifestRemote {
        version: "2.0".to_string(),
        files: vec![entry("A", "hashX", 10)],
    };
    let deleted = remove_obsolete_files(&mut local, &remote);
    assert!(deleted == names(vec!["B"]));
    assert!(local.files.len() == 1);
    assert!(local.files[0] == entry("A", "hashX", 10));
}

#[test]
fn remove_obsolete_treats_triple_changes_as_obsolete() {
    let mut local = manifest_with(vec![
        entry("A", "hashX", 10),
        entry("B", "hashY", 20),
        entry("C", "hashZ", 30),
    ]);
    let remote = GameManifestRemote {
        version: "2.0".to_string(),
        files: vec![
            entry("A", "hashX", 11),  // size changed
            entry("B", "hashW", 20),  // hash changed
            entry("C", "hashZ", 30),  // unchanged
        ],
    };
    let deleted = remove_obsolete_files(&mut local, &remote);
    assert!(deleted == names(vec!["A", "B"]));
    assert!(local.files == vec![entry("C", "hashZ", 30)]);
}

#[test]
fn remove_obsolete_keeps_metadata() {
    let mut local = manifest_with(vec![entry("A", "h", 1)]);
    let remote = GameManifestRemote { version: "2.0".to_string(), files: vec![] };
    let deleted = remove_obsolete_files(&mut local, &remote);
    assert!(deleted == names(vec!["A"]));
    assert!(local.files.is_empty());
    assert!(local.version == "1.0");
    assert!(local.gameTitle == "Demo");
}

#[test]
fn check_missing_reports_absent_entries_in_order() {
    let local = manifest_with(vec![
        entry("a", "h1", 1),
        entry("b", "h2", 2),
        entry("c", "h3", 3),
    ]);
    let present = names(vec!["b"]);
    let missing = check_missing_files(&present, &local);
    assert!(missing == vec![entry("a", "h1", 1), entry("c", "h3", 3)]);
}

#[test]
fn check_missing_is_empty_when_all_present() {
    let local = manifest_with(vec![entry("a", "h1", 1)]);
    let present = names(vec!["a", "stray"]);
    let missing = check_missing_files(&present, &local);
    assert!(missing.is_empty());
}

#[test]
fn sweep_removes_stray_keeps_tracked_and_manifest() {
    let m = manifest_with(vec![entry("game.bin", "h", 5)]);
    let children = names(vec!["game.bin", "notes.txt", "manifest_local.json"]);
    let to_delete = clean_up_directory(&children, &m);
    assert!(to_delete == names(vec!["notes.txt"]));
}

#[test]
fn sweep_keeps_directories_that_hold_tracked_files() {
    let m = manifest_with(vec![entry("data/level1.dat", "h", 5)]);
    let children = names(vec!["data", "datastray", "manifest_local.json"]);
    let to_delete = clean_up_directory(&children, &m);
    // "data" is an ancestor of a tracked entry; "datastray" only shares a prefix.
    assert!(to_delete == names(vec!["datastray"]));
}

#[test]
fn sweep_of_untracked_directory_deletes_everything_but_manifest() {
    let m = manifest_with(vec![]);
    let children = names(vec!["x", "manifest_local.json", "y"]);
    let to_delete = clean_up_directory(&children, &m);
    assert!(to_delete == names(vec!["x", "y"]));
}

#[test]
fn total_downloaded_counts_only_present_files() {
    let m = manifest_with(vec![
        entry("a", "h1", 10),
        entry("b", "h2", 20),
        entry("c", "h3", 40),
    ]);
    let present = names(vec!["a", "c"]);
    assert_eq!(calculate_real_total_downloaded(&present, &m), 50);
}

#[test]
fn total_downloaded_is_zero_with_nothing_present() {
    let m = manifest_with(vec![entry("a", "h1", 10)]);
    let present = names(vec![]);
    assert_eq!(calculate_real_total_downloaded(&present, &m), 0);
}

#[test]
fn total_downloaded_saturates() {
    let m = manifest_with(vec![entry("a", "h1", u64::MAX), entry("b", "h2", 100)]);
    let present = names(vec!["a", "b"]);
    assert_eq!(calculate_real_total_downloaded(&present, &m), u64::MAX);
}
