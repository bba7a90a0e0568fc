use std::path::PathBuf;

use overlay_mount::rsync::SyncMode;
use overlay_mount::config::{
    ConfigError, LayerScan, LowerDir, LowerFile, MountConfig, UpperDir, ValidatedMountConfig,
    ValidationError,
};

const BASE: &str = "/srv/overlay-test";

fn base_join(relative: &str) -> String {
    format!("{BASE}/{relative}")
}

fn standard_upper(volume: &str) -> UpperDir {
    UpperDir::new(
        volume.to_string(),
        "upper".to_string(),
        "work".to_string(),
        "merged".to_string(),
    )
    .unwrap()
}

fn lower_file(relative: &str, in_upper: bool) -> LowerFile {
    LowerFile { relative: relative.to_string(), in_upper }
}

fn masked_list(result: Result<ValidatedMountConfig, ConfigError>) -> Vec<String> {
    match result {
        Err(ConfigError::ValidationError(ValidationError::MaskedFiles(masked))) => masked,
        other => panic!("expected masked files, got {other:?}"),
    }
}

#[test]
fn test_lower_dir_new_valid() {
    let volume = base_join("volume");
    let subdir = Some("subdir".to_string());

    let lower_dir = LowerDir::new(volume.clone(), subdir.clone()).unwrap();
    assert_eq!(lower_dir.volume(), &volume);
    assert_eq!(lower_dir.subdir(), &subdir);
}

#[test]
fn test_lower_dir_new_absolute_subdir_fails() {
    let volume = base_join("volume");
    let subdir = Some("/absolute/path".to_string());

    let result = LowerDir::new(volume, subdir);
    assert!(matches!(result, Err(ValidationError::NonRelative(_, _))));
}

#[test]
fn test_lower_dir_full_path() {
    let volume = base_join("volume");
    let subdir = Some("subdir".to_string());

    let lower_dir = LowerDir::new(volume.clone(), subdir).unwrap();
    assert_eq!(
        PathBuf::from(lower_dir.full_path()),
        PathBuf::from(&volume).join("subdir")
    );
}

#[test]
fn test_lower_dir_full_path_no_subdir() {
    let volume = base_join("volume");

    let lower_dir = LowerDir::new(volume.clone(), None).unwrap();
    assert_eq!(lower_dir.full_path(), volume);
}

#[test]
fn test_upper_dir_new_valid() {
    let volume = base_join("volume");
    let upper_subdir = "upper".to_string();
    let work_subdir = "work".to_string();
    let merged_subdir = "merged".to_string();

    let upper_dir = UpperDir::new(
        volume.clone(),
        upper_subdir.clone(),
        work_subdir.clone(),
        merged_subdir.clone(),
    )
    .unwrap();

    assert_eq!(upper_dir.volume(), &volume);
    assert_eq!(upper_dir.upper_subdir(), &upper_subdir);
    assert_eq!(upper_dir.work_subdir(), &work_subdir);
    assert_eq!(upper_dir.merged_subdir(), &merged_subdir);
}

#[test]
fn test_upper_dir_new_absolute_paths_fail() {
    let volume = base_join("volume");
    let absolute_path = "/absolute/path".to_string();

    let result = UpperDir::new(
        volume.clone(),
        absolute_path.clone(),
        "work".to_string(),
        "merged".to_string(),
    );
    assert!(matches!(result, Err(ValidationError::NonRelative(_, _))));

    let result = UpperDir::new(
        volume.clone(),
        "upper".to_string(),
        absolute_path.clone(),
        "merged".to_string(),
    );
    assert!(matches!(result, Err(ValidationError::NonRelative(_, _))));

    let result = UpperDir::new(
        volume.clone(),
        "upper".to_string(),
        "work".to_string(),
        absolute_path,
    );
    assert!(matches!(result, Err(ValidationError::NonRelative(_, _))));
}

#[test]
fn test_upper_dir_paths() {
    let volume = base_join("volume");
    let upper_dir = standard_upper(&volume);

    let base = PathBuf::from(&volume);
    assert_eq!(PathBuf::from(upper_dir.upper_path()), base.join("upper"));
    assert_eq!(PathBuf::from(upper_dir.work_path()), base.join("work"));
    assert_eq!(PathBuf::from(upper_dir.merged_path()), base.join("merged"));
}

#[test]
fn test_mount_config_create_directories() {
    let volume = BASE.to_string();

    let lower_dir = LowerDir::new(base_join("lower"), None).unwrap();
    let config = MountConfig {
        lower_dirs: vec![lower_dir],
        upper_dir: standard_upper(&volume),
        allowed_masked_files: Vec::new(),
    };

    let dirs = config.directories();
    let base = PathBuf::from(&volume);
    assert_eq!(dirs.len(), 3);
    assert_eq!(PathBuf::from(&dirs[0]), base.join("upper"));
    assert_eq!(PathBuf::from(&dirs[1]), base.join("work"));
    assert_eq!(PathBuf::from(&dirs[2]), base.join("merged"));
}

#[test]
fn test_mount_config_no_masked_files() {
    let volume = BASE.to_string();
    let lower_dir = LowerDir::new(base_join("lower"), None).unwrap();
    let config = MountConfig {
        lower_dirs: vec![lower_dir],
        upper_dir: standard_upper(&volume),
        allowed_masked_files: Vec::new(),
    };
    let scan = LayerScan {
        upper_exists: true,
        lower_files: vec![
            lower_file("config.txt", false),
            lower_file("subdir/nested.txt", false),
        ],
    };

    let validated: ValidatedMountConfig = config.validate(&scan).unwrap();
    assert_eq!(validated.as_config().lower_dirs.len(), 1);
}

#[test]
fn test_mount_config_with_masked_files() {
    let volume = BASE.to_string();
    let lower_dir = LowerDir::new(base_join("lower"), None).unwrap();
    let config = MountConfig {
        lower_dirs: vec![lower_dir],
        upper_dir: standard_upper(&volume),
        allowed_masked_files: Vec::new(),
    };
    // The upper directory holds config.txt, as the lower one does.
    let scan = LayerScan {
        upper_exists: true,
        lower_files: vec![
            lower_file("config.txt", true),
            lower_file("subdir/nested.txt", false),
        ],
    };

    let result = config.validate(&scan);
    assert!(matches!(
        result,
        Err(ConfigError::ValidationError(ValidationError::MaskedFiles(_)))
    ));

    let masked_files = masked_list(result);
    assert_eq!(masked_files.len(), 1);
    assert!(PathBuf::from(&masked_files[0]).ends_with("config.txt"));
}

#[test]
fn test_mount_config_multiple_lower_dirs() {
    let volume = BASE.to_string();
    let lower_dir1 = LowerDir::new(base_join("lower1"), None).unwrap();
    let lower_dir2 = LowerDir::new(base_join("lower2"), None).unwrap();
    let config = MountConfig {
        lower_dirs: vec![lower_dir1, lower_dir2],
        upper_dir: standard_upper(&volume),
        allowed_masked_files: Vec::new(),
    };
    // file1.txt of lower1 is masked by the upper directory.
    let scan = LayerScan {
        upper_exists: true,
        lower_files: vec![lower_file("file1.txt", true), lower_file("file2.txt", false)],
    };

    let result = config.validate(&scan);
    assert!(matches!(
        result,
        Err(ConfigError::ValidationError(ValidationError::MaskedFiles(_)))
    ));
}

#[test]
fn test_mount_config_with_subdirs() {
    let volume = BASE.to_string();
    let lower_dir =
        LowerDir::new(base_join("lower_base"), Some("subdir".to_string())).unwrap();
    assert_eq!(
        PathBuf::from(lower_dir.full_path()),
        PathBuf::from(base_join("lower_base")).join("subdir")
    );
    let config = MountConfig {
        lower_dirs: vec![lower_dir],
        upper_dir: standard_upper(&volume),
        allowed_masked_files: Vec::new(),
    };
    let scan = LayerScan { upper_exists: true, lower_files: vec![lower_file("config.txt", false)] };

    let validated = config.validate(&scan).unwrap();
    assert_eq!(validated.as_config().lower_dirs.len(), 1);
}

#[test]
fn test_mount_config_with_allowed_masked_files() {
    let volume = BASE.to_string();
    let lower_dir = LowerDir::new(base_join("lower"), None).unwrap();
    let config = MountConfig {
        lower_dirs: vec![lower_dir],
        upper_dir: standard_upper(&volume),
        allowed_masked_files: vec!["allowed.txt".to_string()].into_iter().collect(),
    };
    let scan = LayerScan {
        upper_exists: true,
        lower_files: vec![lower_file("config.txt", true), lower_file("allowed.txt", true)],
    };

    let result = config.validate(&scan);
    assert!(matches!(
        result,
        Err(ConfigError::ValidationError(ValidationError::MaskedFiles(_)))
    ));

    let masked_files = masked_list(result);
    assert_eq!(masked_files.len(), 1);
    assert!(PathBuf::from(&masked_files[0]).ends_with("config.txt"));
    assert!(!masked_files.iter().any(|p| PathBuf::from(p).ends_with("allowed.txt")));
}

#[test]
fn test_mount_config_all_files_allowed() {
    let volume = BASE.to_string();
    let lower_dir = LowerDir::new(base_join("lower"), None).unwrap();
    let config = MountConfig {
        lower_dirs: vec![lower_dir],
        upper_dir: standard_upper(&volume),
        allowed_masked_files: vec!["config.txt".to_string(), "other.txt".to_string()]
            .into_iter()
            .collect(),
    };
    let scan = LayerScan {
        upper_exists: true,
        lower_files: vec![lower_file("config.txt", true), lower_file("other.txt", true)],
    };

    let validated = config.validate(&scan).unwrap();
    assert_eq!(validated.as_config().allowed_masked_files.len(), 2);
}

#[test]
fn test_validated_mount_config_conversion() {
    let volume = BASE.to_string();
    let lower_dir = LowerDir::new(base_join("lower"), None).unwrap();
    let upper_dir = standard_upper(&volume);
    let lower_volume = lower_dir.volume().clone();
    let upper_volume = upper_dir.volume().clone();

    let original_config = MountConfig {
        lower_dirs: vec![lower_dir],
        upper_dir,
        allowed_masked_files: Vec::new(),
    };
    let scan = LayerScan { upper_exists: true, lower_files: Vec::new() };

    let validated = original_config.validate(&scan).unwrap();
    let converted_config: MountConfig = validated.into();

    assert_eq!(converted_config.lower_dirs.len(), 1);
    assert_eq!(converted_config.lower_dirs[0].volume(), &lower_volume);
    assert_eq!(converted_config.upper_dir.volume(), &upper_volume);
}

#[test]
fn lower_dir_error_names_subdir_and_volume() {
    let result = LowerDir::new("/data/vol".to_string(), Some("/etc".to_string()));
    match result {
        Err(ValidationError::NonRelative(sub, vol)) => {
            assert_eq!(sub, "/etc");
            assert_eq!(vol, "/data/vol");
        }
        other => panic!("unexpected {other:?}"),
    }
}

#[test]
fn upper_dir_error_names_first_absolute_part() {
    let result = UpperDir::new(
        "/data/vol".to_string(),
        "upper".to_string(),
        "/scratch".to_string(),
        "/mnt".to_string(),
    );
    match result {
        Err(ValidationError::NonRelative(sub, vol)) => {
            assert_eq!(sub, "/scratch");
            assert_eq!(vol, "/data/vol");
        }
        other => panic!("unexpected {other:?}"),
    }
}

#[test]
fn masked_file_found_under_two_lowers_is_reported_once() {
    let config = MountConfig {
        lower_dirs: vec![
            LowerDir::new("/l1".to_string(), None).unwrap(),
            LowerDir::new("/l2".to_string(), None).unwrap(),
        ],
        upper_dir: standard_upper("/vol"),
        allowed_masked_files: Vec::new(),
    };
    let scan = LayerScan {
        upper_exists: true,
        lower_files: vec![
            lower_file("etc/app.conf", true),
            lower_file("etc/app.conf", true),
            lower_file("README", false),
        ],
    };
    let masked = masked_list(config.validate(&scan));
    assert_eq!(masked, vec!["/vol/upper/etc/app.conf".to_string()]);
}

#[test]
fn every_masked_file_is_listed() {
    let config = MountConfig {
        lower_dirs: vec![LowerDir::new("/l1".to_string(), None).unwrap()],
        upper_dir: standard_upper("/vol"),
        allowed_masked_files: vec!["b".to_string()],
    };
    let scan = LayerScan {
        upper_exists: true,
        lower_files: vec![
            lower_file("a", true),
            lower_file("b", true),
            lower_file("c", true),
            lower_file("d", false),
        ],
    };
    let mut masked = masked_list(config.validate(&scan));
    masked.sort();
    assert_eq!(masked, vec!["/vol/upper/a".to_string(), "/vol/upper/c".to_string()]);
}

#[test]
fn absent_upper_directory_passes_validation() {
    let config = MountConfig {
        lower_dirs: vec![LowerDir::new("/l1".to_string(), None).unwrap()],
        upper_dir: standard_upper("/vol"),
        allowed_masked_files: Vec::new(),
    };
    let scan = LayerScan { upper_exists: false, lower_files: vec![lower_file("x", true)] };
    assert!(config.validate(&scan).is_ok());
}

#[test]
fn allow_list_check_is_exact() {
    let config = MountConfig {
        lower_dirs: Vec::new(),
        upper_dir: standard_upper("/vol"),
        allowed_masked_files: vec!["a/b".to_string()],
    };
    assert!(config.is_allowed(&"a/b".to_string()));
    assert!(!config.is_allowed(&"a".to_string()));
    assert!(!config.is_allowed(&"a/b/c".to_string()));
}

#[test]
fn mount_path_follows_sync_mode() {
    let plain = LowerDir::new("/v".to_string(), Some("s".to_string())).unwrap();
    assert_eq!(plain.mount_path(), "/v/s");
    let once = LowerDir::new_with_sync(
        "/v".to_string(),
        Some("s".to_string()),
        SyncMode::Once("/mirror/once".to_string()),
    )
    .unwrap();
    assert_eq!(once.full_path(), "/v/s");
    assert_eq!(once.mount_path(), "/mirror/once");
    let constant =
        LowerDir::new_with_sync("/v".to_string(), None, SyncMode::Constant("/m".to_string()))
            .unwrap();
    assert_eq!(constant.mount_path(), "/m");
    assert!(matches!(constant.sync_mode(), SyncMode::Constant(_)));
}
