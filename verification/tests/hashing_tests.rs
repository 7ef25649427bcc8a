use gamesync::hashing::calculate_file_hash;
use gamesync::platform::get_system_os_info_current;

#[test]
fn sha256_of_empty_input() {
    let hash = calculate_file_hash(&vec![]);
    assert_eq!(
        hash,
        "e3b0c44298fc1c149afbf4c8996fb92427ae41e4649b934ca495991b7852b855"
    );
}

#[test]
fn sha256_of_abc() {
    let hash = calculate_file_hash(&b"abc".to_vec());
    assert_eq!(
        hash,
        "ba7816bf8f01cfea414140de5dae2223b00361a396177a9cb410ff61f20015ad"
    );
}

#[test]
fn sha256_distinguishes_inputs() {
    let a = calculate_file_hash(&b"payload one".to_vec());
    let b = calculate_file_hash(&b"payload two".to_vec());
    assert_ne!(a, b);
    assert_eq!(a.len(), 64);
    assert_eq!(b.len(), 64);
}

#[test]
fn platform_names_map_known_tags() {
    let info = get_system_os_info_current("linux", "x86_64");
    assert_eq!(info.os, "Linux");
    assert_eq!(info.architecture, "x64");
    let info = get_system_os_info_current("windows", "x86");
    assert_eq!(info.os, "Windows");
    assert_eq!(info.architecture, "x86");
    let info = get_system_os_info_current("macos", "aarch64");
    assert_eq!(info.os, "macOS");
    assert_eq!(info.architecture, "arm64");
}

#[test]
fn platform_names_fall_back_for_unknown_tags() {
    let info = get_system_os_info_current("plan9", "mips");
    assert_eq!(info.os, "Unknown OS");
    assert_eq!(info.architecture, "Unknown Architecture");
}
