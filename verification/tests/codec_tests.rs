use gamesync::codec::{load_or_create_manifest, manifest_from_json, manifest_to_json};
use gamesync::manifest::{FileDetails, GameManifestLocal};
use gamesync::pipeline::SyncError;

fn entry(name: &str, hash: &str, size: u64) -> FileDetails {
    FileDetails::new(name.to_string(), hash.to_string(), size)
}

fn manifest_with(files: Vec<FileDetails>) -> GameManifestLocal {
    GameManifestLocal {
        pathInstallLocation: "/games/demo".to_string(),
        gameId: 42,
        gameTitle: "Demo Game".to_string(),
        gameBinarySize: 123456,
        version: "2.0.1".to_string(),
        files,
    }
}

#[test]
fn roundtrip_empty_manifest() {
    let m = manifest_with(vec![]);
    let text = manifest_to_json(&m);
    let back = manifest_from_json(&text).unwrap();
    assert!(m == back);
}

#[test]
fn roundtrip_many_files() {
    let m = manifest_with(vec![
        entry("game.bin", "aa11", 10),
        entry("data/level1.dat", "bb22", 0),
        entry("data/level2.dat", "cc33", u64::MAX),
    ]);
    let text = manifest_to_json(&m);
    let back = manifest_from_json(&text).unwrap();
    assert!(m == back);
}

#[test]
fn roundtrip_special_characters() {
    let mut m = manifest_with(vec![
        entry("with\"quote.bin", "h1", 1),
        entry("with\\backslash.bin", "h2", 2),
        entry("unicode-é-名.bin", "h3", 3),
    ]);
    m.gameTitle = "A \"quoted\" \\ title".to_string();
    let text = manifest_to_json(&m);
    let back = manifest_from_json(&text).unwrap();
    assert!(m == back);
}

#[test]
fn encoded_form_is_exact() {
    let m = GameManifestLocal {
        pathInstallLocation: "/g".to_string(),
        gameId: 5,
        gameTitle: "T".to_string(),
        gameBinarySize: 90,
        version: "1".to_string(),
        files: vec![entry("a", "ff", 7)],
    };
    let text = manifest_to_json(&m);
    assert_eq!(
        text,
        "{\"pathInstallLocation\":\"/g\",\"gameId\":5,\"gameTitle\":\"T\",\
         \"gameBinarySize\":90,\"version\":\"1\",\"files\":[{\"name\":\"a\",\
         \"hash\":\"ff\",\"size\":7}]}"
    );
}

#[test]
fn parse_accepts_whitespace_between_tokens() {
    let text = "{\n  \"pathInstallLocation\" : \"/g\" ,\n  \"gameId\" : 5 ,\r\n \"gameTitle\"\t:\t\"T\" , \"gameBinarySize\" : 90 , \"version\" : \"1\" , \"files\" : [ { \"name\" : \"a\" , \"hash\" : \"ff\" , \"size\" : 7 } , {\"name\":\"b\",\"hash\":\"00\",\"size\":8} ]\n}\n";
    let m = manifest_from_json(text).unwrap();
    assert!(m.pathInstallLocation == "/g");
    assert!(m.gameId == 5);
    assert!(m.gameTitle == "T");
    assert!(m.gameBinarySize == 90);
    assert!(m.version == "1");
    assert!(m.files == vec![entry("a", "ff", 7), entry("b", "00", 8)]);
}

#[test]
fn whitespace_inside_string_values_is_kept() {
    let m = manifest_with(vec![entry("dir name/file one.bin", "h h", 1)]);
    let text = manifest_to_json(&m);
    let back = manifest_from_json(&text).unwrap();
    assert!(m == back);
}

#[test]
fn parse_rejects_malformed_text() {
    assert!(manifest_from_json("").is_err());
    assert!(manifest_from_json("{}").is_err());
    assert!(manifest_from_json("not json at all").is_err());
    let good = manifest_to_json(&manifest_with(vec![entry("a", "h", 1)]));
    let mut truncated = good.clone();
    truncated.pop();
    assert!(manifest_from_json(&truncated).is_err());
    let mut trailing = good.clone();
    trailing.push('x');
    assert!(manifest_from_json(&trailing).is_err());
    // trailing whitespace, on the other hand, is tolerated
    let mut padded = good.clone();
    padded.push('\n');
    assert!(manifest_from_json(&padded).is_ok());
}

#[test]
fn parse_rejects_number_overflow() {
    let text = "{\"pathInstallLocation\":\"/g\",\"gameId\":99999999999999999999999,\
                \"gameTitle\":\"T\",\"gameBinarySize\":1,\"version\":\"1\",\"files\":[]}";
    assert!(manifest_from_json(text).is_err());
}

#[test]
fn load_or_create_parses_persisted_text() {
    let m = manifest_with(vec![entry("a", "h", 1)]);
    let text = manifest_to_json(&m);
    let loaded = load_or_create_manifest(Some(&text), "/ignored", 0, "ignored", 0, "0").unwrap();
    assert!(loaded == m);
}

#[test]
fn load_or_create_synthesizes_fresh_manifest() {
    let m = load_or_create_manifest(None, "/games/new", 9, "New Game", 555, "3.1").unwrap();
    assert!(m.pathInstallLocation == "/games/new");
    assert!(m.gameId == 9);
    assert!(m.gameTitle == "New Game");
    assert!(m.gameBinarySize == 555);
    assert!(m.version == "3.1");
    assert!(m.files.is_empty());
}

#[test]
fn load_or_create_reports_format_error() {
    let r = load_or_create_manifest(Some("garbage"), "/g", 1, "t", 1, "1");
    assert!(matches!(r, Err(SyncError::FormatError(_))));
}
