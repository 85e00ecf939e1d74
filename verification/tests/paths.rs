use pulseseek::paths::same_path;
use pulseseek::roots::{child_mount_kind, BrowserRootKind};
use pulseseek::services::should_skip_recursive_watch;

#[test]
fn paths_compare_by_components() {
    assert!(same_path("/Users/me/", "/Users/me", '/'));
    assert!(same_path("/Users//me", "/Users/me", '/'));
    assert!(same_path("/Users/./me", "/Users/me", '/'));
    assert!(same_path("./a", "./a/", '/'));
    assert!(!same_path("./a", "a", '/'));
    assert!(!same_path("/a", "a", '/'));
    assert!(!same_path("/a/b", "/a/c", '/'));
    assert!(!same_path("/a/..", "/", '/'));
    assert!(same_path("/", "//", '/'));
    assert!(same_path("", ".", '/') == false);
}

#[test]
fn home_with_a_trailing_separator_is_still_not_watched() {
    assert!(should_skip_recursive_watch("/Users/me/", '/', Some("/Users/me")));
    assert!(should_skip_recursive_watch("/Users/me", '/', Some("/Users/me/")));
    assert!(!should_skip_recursive_watch("/Users/me/Music", '/', Some("/Users/me")));
}

#[test]
fn network_mounts_are_matched_as_paths() {
    let mounts = vec!["/Volumes/share/".to_string()];
    assert_eq!(child_mount_kind("/Volumes/share", &mounts), BrowserRootKind::Network);
    assert_eq!(child_mount_kind("/Volumes/disk", &mounts), BrowserRootKind::Physical);
}
