use overlay_mount::config::{LayerScan, LowerDir, MountConfig, UpperDir};
use overlay_mount::diagnostics::log_tail_of;
use overlay_mount::paths::{join_path, path_is_absolute};
use overlay_mount::rsync::{SyncError, SyncMode, SyncResult};
use overlay_mount::service::{default_resync_interval, default_sync_timeout, first_fatal, seconds_to_nanos, Options};
use overlay_mount::{ManagerError, OverlayManager};

fn manager_for(lower_dirs: Vec<LowerDir>) -> OverlayManager {
    let upper_dir = UpperDir::new(
        "/vol".to_string(),
        "upper".to_string(),
        "work".to_string(),
        "merged".to_string(),
    )
    .unwrap();
    let config = MountConfig { lower_dirs, upper_dir, allowed_masked_files: Vec::new() };
    let validated =
        config.validate(&LayerScan { upper_exists: false, lower_files: Vec::new() }).unwrap();
    OverlayManager::new(validated).unwrap()
}

#[test]
fn mount_options_list_lowers_in_order() {
    let manager = manager_for(vec![
        LowerDir::new("/a".to_string(), None).unwrap(),
        LowerDir::new("/b".to_string(), Some("sub".to_string())).unwrap(),
        LowerDir::new_with_sync("/c".to_string(), None, SyncMode::Constant("/mirror/c".to_string()))
            .unwrap(),
    ]);
    assert_eq!(
        manager.mount_options(),
        "lowerdir=/a:/b/sub:/mirror/c,upperdir=/vol/upper,workdir=/vol/work"
    );
    assert_eq!(manager.merged_path(), "/vol/merged");
}

#[test]
fn mount_options_with_one_lower() {
    let manager = manager_for(vec![LowerDir::new("/only".to_string(), None).unwrap()]);
    assert_eq!(manager.mount_options(), "lowerdir=/only,upperdir=/vol/upper,workdir=/vol/work");
}

#[test]
fn log_tail_is_newest_first() {
    assert_eq!(log_tail_of("first\nsecond\r\nthird"), vec!["third", "second", "first"]);
    assert_eq!(log_tail_of("a\n\nb\n"), vec!["b", "", "a"]);
    assert_eq!(log_tail_of(""), Vec::<String>::new());
    assert_eq!(log_tail_of("\n"), vec![""]);
    assert_eq!(log_tail_of("x\r"), vec!["x\r"]);
}

#[test]
fn log_tail_keeps_fifteen_lines() {
    let log: String = (1..=20).map(|i| format!("line {i}\n")).collect();
    let tail = log_tail_of(&log);
    assert_eq!(tail.len(), 15);
    assert_eq!(tail[0], "line 20");
    assert_eq!(tail[14], "line 6");
    let expected: Vec<String> = log.lines().rev().take(15).map(|l| l.to_string()).collect();
    assert_eq!(tail, expected);
}

#[test]
fn failed_mount_carries_log_lines() {
    let error = OverlayManager::mount_error(
        nix::errno::Errno::EINVAL,
        Ok("overlayfs: missing 'lowerdir'\n".to_string()),
    );
    match error {
        ManagerError::MountError(code, Ok(lines)) => {
            assert_eq!(code, nix::errno::Errno::EINVAL);
            assert_eq!(lines, vec!["overlayfs: missing 'lowerdir'"]);
        }
        other => panic!("unexpected {other:?}"),
    }
}

#[test]
fn failed_mount_keeps_log_read_error() {
    let error = OverlayManager::mount_error(
        nix::errno::Errno::EPERM,
        Err(std::io::Error::new(std::io::ErrorKind::NotFound, "no dmesg")),
    );
    assert!(matches!(error, ManagerError::MountError(nix::errno::Errno::EPERM, Err(_))));
}

#[test]
fn paths_join_like_std() {
    assert_eq!(join_path("/vol", "sub"), "/vol/sub");
    assert_eq!(join_path("/vol/", "sub"), "/vol/sub");
    assert_eq!(join_path("/vol", "/abs"), "/abs");
    assert_eq!(join_path("", "rel"), "rel");
    assert!(path_is_absolute("/x"));
    assert!(!path_is_absolute("x/y"));
    assert!(!path_is_absolute(""));
}

#[test]
fn options_defaults_and_units() {
    assert_eq!(default_resync_interval(), 300);
    assert_eq!(default_sync_timeout(), 1800);
    assert_eq!(seconds_to_nanos(60), 60_000_000_000);
    assert_eq!(seconds_to_nanos(u64::MAX), u64::MAX);
    let options = Options {
        show_dmesg: None,
        success_file: None,
        resync_interval_seconds: 300,
        sync_timeout_seconds: 1800,
    };
    assert!(!options.shows_log());
    assert_eq!(options.max_age(), 1_800_000_000_000);
    let sec = 1_000_000_000u64;
    assert!(!options.resync_due(10 * sec, 309 * sec));
    assert!(options.resync_due(10 * sec, 310 * sec));
    assert!(!options.resync_due(10 * sec, 5 * sec));
}

#[test]
fn first_fatal_result_ends_the_run() {
    let fail = || SyncError::tool_failed(Some(1), String::new());
    let results = vec![
        ("/a".to_string(), SyncResult::Success),
        ("/b".to_string(), SyncResult::Transient(fail())),
        ("/c".to_string(), SyncResult::Fatal(fail())),
        ("/d".to_string(), SyncResult::Fatal(fail())),
    ];
    assert_eq!(first_fatal(&results), Some(2));
    let calm = vec![("/a".to_string(), SyncResult::<SyncError>::Success)];
    assert_eq!(first_fatal(&calm), None);
}
