use std::io::Write;

use gamesync::codec::{manifest_from_json, manifest_to_json};
use gamesync::hashing::calculate_file_hash;
use gamesync::manifest::{FileDetails, GameManifestLocal};
use gamesync::pipeline::{check_control, CommitOutcome, SyncError, SyncRun};
use gamesync::reconcile::{calculate_real_total_downloaded, clean_up_directory};

fn entry(name: &str, hash: &str, size: u64) -> FileDetails {
    FileDetails::new(name.to_string(), hash.to_string(), size)
}

fn empty_manifest() -> GameManifestLocal {
    GameManifestLocal {
        pathInstallLocation: "/games/demo".to_string(),
        gameId: 3,
        gameTitle: "Demo".to_string(),
        gameBinarySize: 500,
        version: "1.0".to_string(),
        files: vec![],
    }
}

fn run_with(files: Vec<FileDetails>) -> SyncRun {
    SyncRun::new(
        empty_manifest(),
        files,
        0,
        1000,
        "bucket".to_string(),
        "games/demo/".to_string(),
        "x64".to_string(),
        "https://api.example/download".to_string(),
        "/games/demo".to_string(),
        "Demo".to_string(),
        "1.0".to_string(),
        500,
        3,
        77,
    )
}

/// Feeds `data` as one chunk (no control requests, no emission) and commits
/// the current file as a plain write whose read-back equals the buffer.
fn commit_plain(run: &mut SyncRun, data: &[u8]) -> Result<CommitOutcome, SyncError> {
    run.on_chunk(&data.to_vec(), false, false, 1000).unwrap();
    let plan = run.plain_file_plan();
    assert!(plan.temp_path != plan.final_path);
    let written = run.buffer.clone();
    run.finish_plain_file(Ok(written))
}

#[test]
fn control_checks_decide_cancel_then_pause() {
    assert!(matches!(check_control(true, false), Err(SyncError::Cancelled)));
    assert!(matches!(check_control(true, true), Err(SyncError::Cancelled)));
    assert!(matches!(check_control(false, true), Err(SyncError::Paused)));
    assert!(check_control(false, false).is_ok());
}

#[test]
fn request_url_is_built_exactly() {
    let run = run_with(vec![entry("game.bin", "h", 4)]);
    let req = run.next_file_request().unwrap();
    assert_eq!(
        req.url,
        "https://api.example/download?bucketName=bucket&pathFilename=games/demo/1.0/x64/game.bin"
    );
    assert!(req.file == entry("game.bin", "h", 4));
}

#[test]
fn next_file_request_ends_after_the_list() {
    let run = run_with(vec![]);
    assert!(run.next_file_request().is_none());
}

#[test]
fn chunks_accumulate_and_cancellation_is_observed() {
    let mut run = run_with(vec![entry("a.bin", "h", 6)]);
    run.on_chunk(&vec![1, 2, 3], false, false, 1000).unwrap();
    run.on_chunk(&vec![4, 5], false, false, 1010).unwrap();
    assert_eq!(run.buffer, vec![1, 2, 3, 4, 5]);
    assert_eq!(run.bytes_downloaded, 5);
    let r = run.on_chunk(&vec![6], true, false, 1020);
    assert!(matches!(r, Err(SyncError::Cancelled)));
    // the rejected chunk left no trace
    assert_eq!(run.buffer, vec![1, 2, 3, 4, 5]);
    let r = run.on_chunk(&vec![6], false, true, 1020);
    assert!(matches!(r, Err(SyncError::Paused)));
}

#[test]
fn progress_respects_the_emission_interval() {
    let mut run = run_with(vec![entry("a.bin", "h", 100)]);
    // run starts at 1000 ms; 40 ms later is too early
    let ev = run.on_chunk(&vec![0; 10], false, false, 1040).unwrap();
    assert!(ev.is_none());
    // 50 ms after start the event carries the counters
    let ev = run.on_chunk(&vec![0; 30], false, false, 1050).unwrap().unwrap();
    assert_eq!(ev.bytes_downloaded, 40);
    assert_eq!(ev.total_downloaded, 40);
    assert_eq!(ev.elapsed_ms, 50);
    assert_eq!(ev.total_size_to_download, 100);
    assert_eq!(ev.game_binary_size, 500);
    assert_eq!(ev.user_id, 77);
    assert_eq!(ev.game_id, 3);
    // the next emission waits for the interval again
    let ev = run.on_chunk(&vec![0; 1], false, false, 1060).unwrap();
    assert!(ev.is_none());
}

#[test]
fn temp_path_always_differs_from_final_path() {
    let run = run_with(vec![entry("a.tmp", "h", 1)]);
    let plan = run.plain_file_plan();
    assert_eq!(plan.final_path, "/games/demo/a.tmp");
    assert_eq!(plan.temp_path, "/games/demo/a.tmp.tmp");
    assert!(plan.temp_path != plan.final_path);
}

#[test]
fn write_failure_commits_nothing() {
    let payload = b"partial".to_vec();
    let declared = calculate_file_hash(&payload);
    let mut run = run_with(vec![entry("C", &declared, 7)]);
    run.on_chunk(&payload, false, false, 1000).unwrap();
    let r = run.finish_plain_file(Err("disk full".to_string()));
    assert!(matches!(r, Err(SyncError::IOError(_))));
    assert!(run.manifest.files.is_empty());
    assert_eq!(run.next_index, 0);
}

#[test]
fn hash_mismatch_aborts_without_manifest_entry() {
    let mut run = run_with(vec![entry("a.bin", "0000", 4)]);
    run.on_chunk(&b"data".to_vec(), false, false, 1000).unwrap();
    let written = run.buffer.clone();
    let r = run.finish_plain_file(Ok(written));
    match r {
        Err(SyncError::HashMismatch { file_name, expected, actual }) => {
            assert_eq!(file_name, "a.bin");
            assert_eq!(expected, "0000");
            assert_eq!(actual, calculate_file_hash(&b"data".to_vec()));
        },
        _ => panic!("expected a hash mismatch"),
    }
    assert!(run.manifest.files.is_empty());
    assert_eq!(run.next_index, 0);
}

#[test]
fn verified_payload_is_committed() {
    let payload = b"level data".to_vec();
    let declared = calculate_file_hash(&payload);
    let mut run = run_with(vec![entry("a.bin", &declared, 10)]);
    let outcome = commit_plain(&mut run, &payload).unwrap();
    assert_eq!(outcome.hash, declared);
    assert!(run.manifest.files == vec![entry("a.bin", &declared, 10)]);
    assert_eq!(run.next_index, 1);
    assert!(run.buffer.is_empty());
    // the text handed out for persistence denotes the updated manifest
    let persisted = manifest_from_json(&outcome.manifest_json).unwrap();
    assert!(persisted == run.manifest);
}

#[test]
fn cancellation_before_second_file_keeps_only_the_first() {
    let one = b"one".to_vec();
    let h1 = calculate_file_hash(&one);
    let files = vec![
        entry("f1", &h1, 3),
        entry("f2", "h2", 4),
        entry("f3", "h3", 5),
    ];
    let mut run = run_with(files);
    let outcome = commit_plain(&mut run, &one).unwrap();

    // cancellation is requested before file 2 starts
    let r = check_control(true, false);
    assert!(matches!(r, Err(SyncError::Cancelled)));

    // the text persisted at f1's commit carries file 1 and nothing else
    let persisted = manifest_from_json(&outcome.manifest_json).unwrap();
    assert!(persisted.files == vec![entry("f1", &h1, 3)]);
    assert_eq!(outcome.manifest_json, manifest_to_json(&run.manifest));
}

#[test]
fn resumed_run_starts_from_the_committed_sizes() {
    let a = b"aaaa".to_vec();
    let b = b"bbbbbb".to_vec();
    let ha = calculate_file_hash(&a);
    let hb = calculate_file_hash(&b);
    let files = vec![
        entry("f1", &ha, 4),
        entry("f2", &hb, 6),
        entry("f3", "h3", 10),
        entry("f4", "h4", 20),
        entry("f5", "h5", 40),
    ];
    let mut run = run_with(files.clone());
    commit_plain(&mut run, &a).unwrap();
    commit_plain(&mut run, &b).unwrap();
    assert!(matches!(check_control(true, false), Err(SyncError::Cancelled)));
    let _ = run.finish_run();

    // a later invocation sees f1 and f2 on disk and fetches the rest
    let present: Vec<String> = vec!["f1".to_string(), "f2".to_string()];
    let baseline = calculate_real_total_downloaded(&present, &run.manifest);
    assert_eq!(baseline, 10);
    let remaining = vec![files[2].clone(), files[3].clone(), files[4].clone()];
    let resumed = SyncRun::new(
        run.manifest.clone(),
        remaining,
        baseline,
        2000,
        "bucket".to_string(),
        "games/demo/".to_string(),
        "x64".to_string(),
        "https://api.example/download".to_string(),
        "/games/demo".to_string(),
        "Demo".to_string(),
        "1.0".to_string(),
        500,
        3,
        77,
    );
    assert_eq!(resumed.total_downloaded, 10);
    assert_eq!(resumed.total_size_to_download, 70);
}

#[test]
fn archive_payload_expands_under_entry_paths() {
    // build a real zip with two entries
    let mut cursor = std::io::Cursor::new(Vec::new());
    {
        let mut writer = zip::ZipWriter::new(&mut cursor);
        let options = zip::write::SimpleFileOptions::default();
        writer.start_file("inner1.txt", options).unwrap();
        writer.write_all(b"first entry").unwrap();
        writer.start_file("sub/inner2.txt", options).unwrap();
        writer.write_all(b"second entry").unwrap();
        writer.finish().unwrap();
    }
    let zip_bytes = cursor.into_inner();

    let h1 = calculate_file_hash(&b"first entry".to_vec());
    let h2 = calculate_file_hash(&b"second entry".to_vec());
    let mut run = run_with(vec![entry("pack.zip", "declared", 9)]);
    run.on_chunk(&zip_bytes, false, false, 1000).unwrap();
    let plans = run.process_archive().unwrap();
    assert_eq!(plans.len(), 2);
    // each entry is written under its own relative path
    assert_eq!(plans[0].path, "/games/demo/inner1.txt");
    assert_eq!(plans[1].path, "/games/demo/sub/inner2.txt");
    assert_eq!(plans[0].data, b"first entry".to_vec());
    assert_eq!(plans[1].data, b"second entry".to_vec());
    // each entry is recorded under its own path with its computed digest
    assert!(run.manifest.files == vec![
        entry("inner1.txt", &h1, 11),
        entry("sub/inner2.txt", &h2, 12),
    ]);
    assert_eq!(run.next_index, 1);
    assert!(run.buffer.is_empty());
    // the first plan's manifest text holds only the first entry; the last
    // holds both
    let after_first = manifest_from_json(&plans[0].manifest_json).unwrap();
    assert!(after_first.files == vec![entry("inner1.txt", &h1, 11)]);
    let after_second = manifest_from_json(&plans[1].manifest_json).unwrap();
    assert!(after_second == run.manifest);
}

#[test]
fn corrupt_archive_leaves_the_run_unchanged() {
    let mut run = run_with(vec![entry("pack.zip", "declared", 9)]);
    run.on_chunk(&b"this is not a zip".to_vec(), false, false, 1000).unwrap();
    let r = run.process_archive();
    assert!(matches!(r, Err(SyncError::ArchiveError(_))));
    assert!(run.manifest.files.is_empty());
    assert_eq!(run.next_index, 0);
    assert_eq!(run.buffer, b"this is not a zip".to_vec());
}

#[test]
fn transfer_error_names_the_file_and_status() {
    let run = run_with(vec![entry("a.bin", "h", 1)]);
    let r = run.check_response_status(false, &"404 Not Found".to_string());
    match r {
        Err(SyncError::TransferError(m)) => {
            assert_eq!(m, "Failed to download file: a.bin received 404 Not Found response");
        },
        _ => panic!("expected a transfer error"),
    }
    assert!(run.check_response_status(true, &"200 OK".to_string()).is_ok());
}

#[test]
fn successful_run_ends_with_sweep_and_completion() {
    let payload = b"game".to_vec();
    let h = calculate_file_hash(&payload);
    let mut run = run_with(vec![entry("game.bin", &h, 4)]);
    commit_plain(&mut run, &payload).unwrap();
    let out = run.finish_run();
    let ev = out.completion;
    assert_eq!(ev.game_title, "Demo");
    assert_eq!(ev.file_location_download, "/games/demo");
    assert_eq!(ev.game_version, "1.0");
    assert_eq!(ev.game_binary_size, 500);
    assert_eq!(ev.user_id, 77);
    assert_eq!(out.manifest_json, manifest_to_json(&run.manifest));
    // the sweep plan removes the stray file only
    let children: Vec<String> = vec![
        "game.bin".to_string(),
        "notes.txt".to_string(),
        "manifest_local.json".to_string(),
    ];
    let to_delete = clean_up_directory(&children, &run.manifest);
    assert!(to_delete == vec!["notes.txt".to_string()]);
}

#[test]
fn byte_counters_saturate_instead_of_overflowing() {
    let mut run = run_with(vec![entry("a.bin", "h", 1)]);
    run.bytes_downloaded = u64::MAX - 4;
    run.total_downloaded = u64::MAX - 4;
    run.on_chunk(&vec![0; 10], false, false, 1000).unwrap();
    assert_eq!(run.bytes_downloaded, u64::MAX);
    assert_eq!(run.total_downloaded, u64::MAX);
}

#[test]
fn fetch_list_total_saturates() {
    let run = run_with(vec![entry("a", "h", u64::MAX), entry("b", "h", 50)]);
    assert_eq!(run.total_size_to_download, u64::MAX);
}

#[test]
fn update_run_metadata_changes_only_metadata() {
    let mut m = empty_manifest();
    m.files.push(entry("a", "h", 1));
    gamesync::pipeline::update_run_metadata(
        &mut m,
        &"New Title".to_string(),
        &"2.0".to_string(),
        999,
    );
    assert_eq!(m.gameTitle, "New Title");
    assert_eq!(m.version, "2.0");
    assert_eq!(m.gameBinarySize, 999);
    assert!(m.files == vec![entry("a", "h", 1)]);
    assert_eq!(m.pathInstallLocation, "/games/demo");
}
