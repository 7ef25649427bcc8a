use gamesync::manifest::{FileDetails, GameManifestLocal, remove_duplicates};

fn entry(name: &str, hash: &str, size: u64) -> FileDetails {
    FileDetails::new(name.to_string(), hash.to_string(), size)
}

fn manifest_with(files: Vec<FileDetails>) -> GameManifestLocal {
    GameManifestLocal {
        pathInstallLocation: "/games/demo".to_string(),
        gameId: 7,
        gameTitle: "Demo".to_string(),
        gameBinarySize: 1000,
        version: "1.2.3".to_string(),
        files,
    }
}

#[test]
fn dedup_keeps_first_occurrence_in_order() {
    let mut m = manifest_with(vec![
        entry("a.bin", "h1", 1),
        entry("b.bin", "h2", 2),
        entry("a.bin", "h3", 3),
        entry("c.bin", "h4", 4),
        entry("b.bin", "h5", 5),
    ]);
    remove_duplicates(&mut m);
    assert!(m.files.len() == 3);
    assert!(m.files[0] == entry("a.bin", "h1", 1));
    assert!(m.files[1] == entry("b.bin", "h2", 2));
    assert!(m.files[2] == entry("c.bin", "h4", 4));
}

#[test]
fn dedup_twice_equals_dedup_once() {
    let mut once = manifest_with(vec![
        entry("x", "h1", 1),
        entry("x", "h2", 2),
        entry("y", "h3", 3),
    ]);
    remove_duplicates(&mut once);
    let mut twice = manifest_with(vec![
        entry("x", "h1", 1),
        entry("x", "h2", 2),
        entry("y", "h3", 3),
    ]);
    remove_duplicates(&mut twice);
    remove_duplicates(&mut twice);
    assert!(once == twice);
}

#[test]
fn dedup_leaves_unique_lists_alone() {
    let mut m = manifest_with(vec![entry("a", "h1", 1), entry("b", "h2", 2)]);
    remove_duplicates(&mut m);
    assert!(m == manifest_with(vec![entry("a", "h1", 1), entry("b", "h2", 2)]));
}

#[test]
fn dedup_keeps_metadata() {
    let mut m = manifest_with(vec![entry("a", "h1", 1), entry("a", "h1", 1)]);
    remove_duplicates(&mut m);
    assert!(m.pathInstallLocation == "/games/demo");
    assert!(m.gameId == 7);
    assert!(m.gameTitle == "Demo");
    assert!(m.gameBinarySize == 1000);
    assert!(m.version == "1.2.3");
    assert!(m.files.len() == 1);
}

#[test]
fn entry_equality_is_by_triple() {
    assert!(entry("a", "h", 1) == entry("a", "h", 1));
    assert!(entry("a", "h", 1) != entry("a", "h", 2));
    assert!(entry("a", "h", 1) != entry("a", "g", 1));
    assert!(entry("a", "h", 1) != entry("b", "h", 1));
}

#[test]
fn clone_preserves_entries() {
    let m = manifest_with(vec![entry("a", "h", 1)]);
    let c = m.clone();
    assert!(m == c);
}
