use filehog::config::{Args, Config, ConfigError, FolderProbe, OutputStructure, StorageParams};
use filehog::storage::{FileStatus, StorageManager};

fn present() -> FolderProbe {
    FolderProbe { exists: true, is_dir: true }
}

fn sample_config() -> Config {
    Config {
        target_folder: String::from("/tmp/target"),
        output_folder: String::from("/tmp/output"),
        output_structure: OutputStructure::Structured,
        codex_endpoints: vec!["http://localhost:8080".to_string()],
        storage_params: StorageParams::default(),
    }
}

#[test]
fn test_storage_params_default() {
    let params = StorageParams::default();
    assert_eq!(params.price, 1000);
    assert_eq!(params.nodes, 10);
    assert_eq!(params.tolerance, 5);
    assert_eq!(params.proof_probability, 100);
    assert_eq!(params.duration_days, 6);
    assert_eq!(params.expiry_minutes, 60);
    assert_eq!(params.collateral, 1);
}

#[test]
fn test_config_validation_same_folders() {
    let config = Config {
        target_folder: String::from("/tmp/test"),
        output_folder: String::from("/tmp/test"),
        output_structure: OutputStructure::Structured,
        codex_endpoints: vec!["http://localhost:8080".to_string()],
        storage_params: StorageParams::default(),
    };

    assert!(config.validate(present()).is_err());
    assert_eq!(config.validate(present()), Err(ConfigError::SameFolders));
}

#[test]
fn test_config_validation_duration() {
    let mut config = Config {
        target_folder: String::from("/tmp/target"),
        output_folder: String::from("/tmp/output"),
        output_structure: OutputStructure::Structured,
        codex_endpoints: vec!["http://localhost:8080".to_string()],
        storage_params: StorageParams::default(),
    };

    config.storage_params.duration_days = 0;
    assert!(config.validate(present()).is_err());
    assert_eq!(config.validate(present()), Err(ConfigError::DurationTooShort));
}

#[test]
fn test_config_validation_expiry() {
    let mut config = Config {
        target_folder: String::from("/tmp/target"),
        output_folder: String::from("/tmp/output"),
        output_structure: OutputStructure::Structured,
        codex_endpoints: vec!["http://localhost:8080".to_string()],
        storage_params: StorageParams::default(),
    };

    config.storage_params.expiry_minutes = 10;
    assert!(config.validate(present()).is_err());
    assert_eq!(config.validate(present()), Err(ConfigError::ExpiryTooShort));
}

#[test]
fn test_file_record_creation() {
    let storage_manager =
        StorageManager::new(String::from("/tmp/output"), OutputStructure::Structured);

    let record = storage_manager.create_new_record(String::from("/tmp/test.txt"));
    assert_eq!(record.status, FileStatus::New);
    assert!(record.original_cid.is_none());
    assert!(record.purchase_id.is_none());
    assert_eq!(record.file_path, "/tmp/test.txt");
    assert_eq!(record.created_at, record.updated_at);
    assert!(record.storage_cid.is_none());
    assert!(record.codex_endpoint.is_none());
    assert!(record.error.is_none());
}

#[test]
fn config_validation_accepts_a_sound_configuration() {
    assert_eq!(sample_config().validate(present()), Ok(()));
}

#[test]
fn config_validation_reports_a_missing_target() {
    let probe = FolderProbe { exists: false, is_dir: false };
    assert_eq!(sample_config().validate(probe), Err(ConfigError::TargetMissing));
}

#[test]
fn config_validation_reports_a_target_that_is_no_directory() {
    let probe = FolderProbe { exists: true, is_dir: false };
    assert_eq!(sample_config().validate(probe), Err(ConfigError::TargetNotDirectory));
}

#[test]
fn config_validation_reports_an_expiry_beyond_the_duration() {
    let mut config = sample_config();
    config.storage_params.duration_days = 1;
    config.storage_params.expiry_minutes = 1441;
    assert_eq!(config.validate(present()), Err(ConfigError::ExpiryExceedsDuration));
    config.storage_params.expiry_minutes = 1440;
    assert_eq!(config.validate(present()), Ok(()));
}

#[test]
fn config_validation_reports_missing_endpoints() {
    let mut config = sample_config();
    config.codex_endpoints = Vec::new();
    assert_eq!(config.validate(present()), Err(ConfigError::NoEndpoints));
}

#[test]
fn config_validation_reports_the_first_broken_rule() {
    let mut config = sample_config();
    config.output_folder = config.target_folder.clone();
    config.storage_params.duration_days = 0;
    config.codex_endpoints = Vec::new();
    let probe = FolderProbe { exists: false, is_dir: false };
    assert_eq!(config.validate(probe), Err(ConfigError::SameFolders));
    config.output_folder = String::from("/tmp/output");
    assert_eq!(config.validate(probe), Err(ConfigError::TargetMissing));
    assert_eq!(config.validate(present()), Err(ConfigError::DurationTooShort));
}

#[test]
fn config_validation_takes_the_largest_duration() {
    let mut config = sample_config();
    config.storage_params.duration_days = u32::MAX;
    config.storage_params.expiry_minutes = u32::MAX;
    assert_eq!(config.validate(present()), Ok(()));
    assert_eq!(config.duration(), 4294967295u64 * 86400);
    assert_eq!(config.expiry(), 4294967295u64 * 60);
}

#[test]
fn config_duration_and_expiry_are_in_seconds() {
    let config = sample_config();
    assert_eq!(config.duration(), 518400);
    assert_eq!(config.expiry(), 3600);
}

#[test]
fn default_config_holds_the_documented_values() {
    let config = Config::default_config();
    assert_eq!(config.target_folder, "./target");
    assert_eq!(config.output_folder, "./output");
    assert_eq!(config.output_structure, OutputStructure::Structured);
    assert_eq!(config.codex_endpoints, vec!["http://localhost:8080".to_string()]);
    assert_eq!(config.storage_params, StorageParams::default());
}

#[test]
fn load_without_a_file_gives_the_default_configuration() {
    let args = Args { config: None, target_folder: None, output_folder: None };
    let config = Config::load(args, None);
    assert_eq!(config.target_folder, "./target");
    assert_eq!(config.output_folder, "./output");
    assert_eq!(config.codex_endpoints.len(), 1);
}

#[test]
fn load_lets_the_command_line_replace_the_folders() {
    let args = Args {
        config: Some(String::from("filehog.toml")),
        target_folder: Some(String::from("/data/in")),
        output_folder: None,
    };
    let mut from_file = sample_config();
    from_file.output_structure = OutputStructure::Flattened;
    from_file.storage_params.price = 7;
    let config = Config::load(args, Some(from_file));
    assert_eq!(config.target_folder, "/data/in");
    assert_eq!(config.output_folder, "/tmp/output");
    assert_eq!(config.output_structure, OutputStructure::Flattened);
    assert_eq!(config.storage_params.price, 7);

    let args = Args {
        config: None,
        target_folder: None,
        output_folder: Some(String::from("/data/out")),
    };
    let config = Config::load(args, None);
    assert_eq!(config.target_folder, "./target");
    assert_eq!(config.output_folder, "/data/out");
}

#[test]
fn config_clone_keeps_every_value() {
    let mut config = sample_config();
    config.codex_endpoints.push(String::from("http://other:8080"));
    let copy = config.clone();
    assert_eq!(copy.target_folder, config.target_folder);
    assert_eq!(copy.output_folder, config.output_folder);
    assert_eq!(copy.output_structure, config.output_structure);
    assert_eq!(copy.codex_endpoints, config.codex_endpoints);
    assert_eq!(copy.storage_params, config.storage_params);
}
