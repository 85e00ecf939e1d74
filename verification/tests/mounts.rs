use pulseseek::mounts::{is_network_file_system, parse_linux_network_mount_paths, parse_network_mount_paths};
use pulseseek::roots::{child_mount_kind, order_roots, root_rank, BrowserRootData, BrowserRootKind};

#[test]
fn network_file_systems_are_recognized_without_case() {
    for name in ["smbfs", "cifs", "afpfs", "nfs", "nfs4", "webdav", "webdavfs", "davfs", "davfs2", "sshfs", "fuse.sshfs", "9p"] {
        assert!(is_network_file_system(name), "{name}");
    }
    assert!(is_network_file_system("SMBFS"));
    assert!(is_network_file_system("NfS4"));
    assert!(!is_network_file_system("apfs"));
    assert!(!is_network_file_system("ext4"));
    assert!(!is_network_file_system(""));
}

#[test]
fn mac_mount_listing_yields_network_mount_points() {
    let output = "/dev/disk3s1s1 on / (apfs, sealed, local, read-only, journaled)\n\
//alice@nas/Music on /Volumes/Music Share (smbfs, nodev, nosuid, mounted by alice)\n\
nas:/export on /Volumes/nfs (nfs)\n\
map auto_home on /System/Volumes/Data/home (autofs, automounted, nobrowse)\n";
    assert_eq!(
        parse_network_mount_paths(output),
        vec!["/Volumes/Music Share".to_string(), "/Volumes/nfs".to_string()]
    );
    assert!(parse_network_mount_paths("").is_empty());
    assert!(parse_network_mount_paths("garbage without markers").is_empty());
}

#[test]
fn linux_mount_table_yields_network_mount_points() {
    let output = "/dev/sda1 / ext4 rw,relatime 0 0\n\
//nas/music /mnt/music\\040share cifs rw 0 0\n\
nas:/export /mnt/nfs nfs4 rw 0 0\n\
proc /proc proc rw 0 0";
    assert_eq!(
        parse_linux_network_mount_paths(output),
        vec!["/mnt/music share".to_string(), "/mnt/nfs".to_string()]
    );
    assert!(parse_linux_network_mount_paths("short line").is_empty());
}

#[test]
fn mounted_volumes_are_network_shares_only_when_listed() {
    let network = vec!["/Volumes/nas".to_string()];
    assert_eq!(child_mount_kind("/Volumes/nas", &network), BrowserRootKind::Network);
    assert_eq!(child_mount_kind("/Volumes/usb", &network), BrowserRootKind::Physical);
    assert_eq!(child_mount_kind("/Volumes/nas", &vec![]), BrowserRootKind::Physical);
}

fn root(path: &str, name: &str, kind: BrowserRootKind) -> BrowserRootData {
    BrowserRootData { path: path.to_string(), name: name.to_string(), kind }
}

#[test]
fn roots_are_ordered_by_kind_then_name_and_deduplicated() {
    let roots = vec![
        root("/Volumes/nas", "nas", BrowserRootKind::Network),
        root("/Volumes/usb", "Zeta", BrowserRootKind::Physical),
        root("/Users/alice", "alice", BrowserRootKind::Home),
        root("/Volumes/alpha", "alpha", BrowserRootKind::Physical),
        root("/", "Macintosh HD", BrowserRootKind::System),
        root("/Volumes/alpha", "alpha", BrowserRootKind::Physical),
    ];
    let ordered = order_roots(roots);
    let paths: Vec<&str> = ordered.iter().map(|r| r.path.as_str()).collect();
    assert_eq!(paths, vec!["/", "/Users/alice", "/Volumes/alpha", "/Volumes/usb", "/Volumes/nas"]);
}

#[test]
fn root_ranks_follow_the_offered_order() {
    assert_eq!(root_rank(BrowserRootKind::System), 0);
    assert_eq!(root_rank(BrowserRootKind::Home), 1);
    assert_eq!(root_rank(BrowserRootKind::Physical), 2);
    assert_eq!(root_rank(BrowserRootKind::Network), 3);
}

#[test]
fn a_mount_point_listed_twice_is_reported_once() {
    let output = "nas:/export /mnt/nfs nfs4 rw 0 0\n\
//nas/music /mnt/music cifs rw 0 0\n\
nas:/export /mnt/nfs nfs4 ro 0 0\n";
    assert_eq!(
        parse_linux_network_mount_paths(output),
        vec!["/mnt/nfs".to_string(), "/mnt/music".to_string()]
    );
    let mac = "//a@nas/M on /Volumes/M (smbfs)\n//b@nas/M on /Volumes/M (smbfs)\n";
    assert_eq!(parse_network_mount_paths(mac), vec!["/Volumes/M".to_string()]);
}
