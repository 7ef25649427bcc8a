use gamesync::control::DownloadRegistry;

#[test]
fn first_reference_creates_cleared_flags() {
    let mut reg = DownloadRegistry::new();
    let (cancel, pause) = reg.get_or_create_download_state(1);
    assert!(!cancel);
    assert!(!pause);
}

#[test]
fn cancel_sets_only_the_cancel_flag() {
    let mut reg = DownloadRegistry::new();
    reg.cancel_download(1);
    let (cancel, pause) = reg.get_or_create_download_state(1);
    assert!(cancel);
    assert!(!pause);
}

#[test]
fn pause_keeps_the_cancel_flag() {
    let mut reg = DownloadRegistry::new();
    reg.cancel_download(1);
    reg.pause_download(1);
    let (cancel, pause) = reg.get_or_create_download_state(1);
    assert!(cancel);
    assert!(pause);
}

#[test]
fn resume_clears_both_flags() {
    let mut reg = DownloadRegistry::new();
    reg.cancel_download(1);
    reg.pause_download(1);
    reg.resume_download(1);
    let (cancel, pause) = reg.get_or_create_download_state(1);
    assert!(!cancel);
    assert!(!pause);
}

#[test]
fn packages_are_independent() {
    let mut reg = DownloadRegistry::new();
    reg.cancel_download(1);
    reg.pause_download(2);
    let (c1, p1) = reg.get_or_create_download_state(1);
    let (c2, p2) = reg.get_or_create_download_state(2);
    let (c3, p3) = reg.get_or_create_download_state(3);
    assert!(c1 && !p1);
    assert!(!c2 && p2);
    assert!(!c3 && !p3);
}

#[test]
fn flags_survive_repeated_lookup() {
    let mut reg = DownloadRegistry::new();
    reg.pause_download(5);
    let _ = reg.get_or_create_download_state(5);
    let (cancel, pause) = reg.get_or_create_download_state(5);
    assert!(!cancel);
    assert!(pause);
}
