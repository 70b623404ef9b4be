//! Configuration of the agent and the rules a configuration must meet.

use crate::text::{clone_texts, texts_view};
use vstd::prelude::*;
use vstd::string::*;

verus! {

/// What the command line gives: the path of a configuration file, which
/// the caller reads, and folders that take the place of the configured
/// ones.
#[derive(Debug)]
pub struct Args {
    pub config: Option<String>,
    pub target_folder: Option<String>,
    pub output_folder: Option<String>,
}

/// The on-disk layout of the record store.
#[derive(Debug, Clone, Copy, PartialEq, Eq, Structural)]
pub enum OutputStructure {
    Flattened,
    Structured,
}

/// The terms asked of the storage network for every purchase.
#[derive(Debug, Clone, Copy, PartialEq, Eq, Structural)]
pub struct StorageParams {
    pub price: u64,
    pub nodes: u32,
    pub tolerance: u32,
    pub proof_probability: u32,
    pub duration_days: u32,
    pub expiry_minutes: u32,
    pub collateral: u64,
}

impl Default for StorageParams {
    fn default() -> (p: StorageParams)
        ensures
            p == (StorageParams {
                price: 1000,
                nodes: 10,
                tolerance: 5,
                proof_probability: 100,
                duration_days: 6,
                expiry_minutes: 60,
                collateral: 1,
            }),
    {
        StorageParams {
            price: 1000,
            nodes: 10,
            tolerance: 5,
            proof_probability: 100,
            duration_days: 6,
            expiry_minutes: 60,
            collateral: 1,
        }
    }
}

/// The whole configuration of the agent.
#[derive(Debug)]
pub struct Config {
    pub target_folder: String,
    pub output_folder: String,
    pub output_structure: OutputStructure,
    pub codex_endpoints: Vec<String>,
    pub storage_params: StorageParams,
}

/// What the caller found at the target folder's path.
#[derive(Debug, Clone, Copy, PartialEq, Eq, Structural)]
pub struct FolderProbe {
    pub exists: bool,
    pub is_dir: bool,
}

/// Why a configuration was turned down.
#[derive(Debug, Clone, Copy, PartialEq, Eq, Structural)]
pub enum ConfigError {
    /// Target and output folder are the same path.
    SameFolders,
    /// Nothing exists at the target folder's path.
    TargetMissing,
    /// The target folder's path is not a directory.
    TargetNotDirectory,
    /// The duration is shorter than one day.
    DurationTooShort,
    /// The expiry is shorter than fifteen minutes.
    ExpiryTooShort,
    /// The expiry is longer than the duration.
    ExpiryExceedsDuration,
    /// No service endpoint is configured.
    NoEndpoints,
}

/// The shortest duration of a purchase, in days.
pub const MIN_DURATION_DAYS: u32 = 1;

/// The shortest expiry of a purchase request, in minutes.
pub const MIN_EXPIRY_MINUTES: u32 = 15;

/// The first rule that a configuration breaks, if it breaks any. The rules
/// are tried in the order of the variants of [`ConfigError`].
pub open spec fn first_violation(
    target_folder: Seq<char>,
    output_folder: Seq<char>,
    endpoints: nat,
    params: StorageParams,
    probe: FolderProbe,
) -> Option<ConfigError> {
    if target_folder == output_folder {
        Some(ConfigError::SameFolders)
    } else if !probe.exists {
        Some(ConfigError::TargetMissing)
    } else if !probe.is_dir {
        Some(ConfigError::TargetNotDirectory)
    } else if params.duration_days < MIN_DURATION_DAYS {
        Some(ConfigError::DurationTooShort)
    } else if params.expiry_minutes < MIN_EXPIRY_MINUTES {
        Some(ConfigError::ExpiryTooShort)
    } else if params.expiry_minutes > params.duration_days * 24 * 60 {
        Some(ConfigError::ExpiryExceedsDuration)
    } else if endpoints == 0 {
        Some(ConfigError::NoEndpoints)
    } else {
        None
    }
}

impl Clone for Config {
    fn clone(&self) -> (c: Config)
        ensures
            c@ == self@,
    {
        let c = Config {
            target_folder: self.target_folder.clone(),
            output_folder: self.output_folder.clone(),
            output_structure: self.output_structure,
            codex_endpoints: clone_texts(&self.codex_endpoints),
            storage_params: self.storage_params,
        };
        assert(c@.codex_endpoints =~= self@.codex_endpoints);
        c
    }
}

impl View for Config {
    type V = ConfigView;

    open spec fn view(&self) -> ConfigView {
        ConfigView {
            target_folder: self.target_folder@,
            output_folder: self.output_folder@,
            output_structure: self.output_structure,
            codex_endpoints: texts_view(self.codex_endpoints@),
            storage_params: self.storage_params,
        }
    }
}

impl Config {
    /// The configuration used when no file is given.
    pub fn default_config() -> (c: Config)
        ensures
            c@ == default_config_view(),
    {
        let mut endpoints: Vec<String> = Vec::new();
        endpoints.push(String::from_str("http://localhost:8080"));
        let c = Config {
            target_folder: String::from_str("./target"),
            output_folder: String::from_str("./output"),
            output_structure: OutputStructure::Structured,
            codex_endpoints: endpoints,
            storage_params: StorageParams::default(),
        };
        assert(c@.codex_endpoints =~= default_config_view().codex_endpoints);
        c
    }

    /// Settles the configuration to run with: the one that the caller read
    /// from the configuration file, or the default one where there is
    /// none, with the folders replaced by those given on the command line.
    pub fn load(args: Args, from_file: Option<Config>) -> (c: Config)
        ensures
            c@ == (ConfigView {
                target_folder: match args.target_folder {
                    Some(t) => t@,
                    None => base_config(from_file).target_folder,
                },
                output_folder: match args.output_folder {
                    Some(o) => o@,
                    None => base_config(from_file).output_folder,
                },
                ..base_config(from_file)
            }),
    {
        let mut config = match from_file {
            Some(c) => c,
            None => Self::default_config(),
        };
        if let Some(target) = args.target_folder {
            config.target_folder = target;
        }
        if let Some(output) = args.output_folder {
            config.output_folder = output;
        }
        config
    }

    /// Checks the configuration against the rules, given what the caller
    /// found at the target folder's path. The first broken rule is reported.
    pub fn validate(&self, probe: FolderProbe) -> (r: Result<(), ConfigError>)
        ensures
            match first_violation(
                self.target_folder@,
                self.output_folder@,
                self.codex_endpoints@.len(),
                self.storage_params,
                probe,
            ) {
                Some(e) => r == Err::<(), ConfigError>(e),
                None => r == Ok::<(), ConfigError>(()),
            },
    {
        if self.target_folder == self.output_folder {
            return Err(ConfigError::SameFolders);
        }
        if !probe.exists {
            return Err(ConfigError::TargetMissing);
        }
        if !probe.is_dir {
            return Err(ConfigError::TargetNotDirectory);
        }
        if self.storage_params.duration_days < MIN_DURATION_DAYS {
            return Err(ConfigError::DurationTooShort);
        }
        if self.storage_params.expiry_minutes < MIN_EXPIRY_MINUTES {
            return Err(ConfigError::ExpiryTooShort);
        }
        let duration_minutes: u64 = self.storage_params.duration_days as u64 * 24 * 60;
        if self.storage_params.expiry_minutes as u64 > duration_minutes {
            return Err(ConfigError::ExpiryExceedsDuration);
        }
        if self.codex_endpoints.len() == 0 {
            return Err(ConfigError::NoEndpoints);
        }
        Ok(())
    }

    /// The duration of a purchase in seconds.
    pub fn duration(&self) -> (secs: u64)
        ensures
            secs == self.storage_params.duration_days * 24 * 60 * 60,
    {
        self.storage_params.duration_days as u64 * 24 * 60 * 60
    }

    /// The expiry of a purchase request in seconds.
    pub fn expiry(&self) -> (secs: u64)
        ensures
            secs == self.storage_params.expiry_minutes * 60,
    {
        self.storage_params.expiry_minutes as u64 * 60
    }
}

/// The mathematical value of a [`Config`].
pub ghost struct ConfigView {
    pub target_folder: Seq<char>,
    pub output_folder: Seq<char>,
    pub output_structure: OutputStructure,
    pub codex_endpoints: Seq<Seq<char>>,
    pub storage_params: StorageParams,
}

/// The value of the configuration used when no file is given.
pub open spec fn default_config_view() -> ConfigView {
    ConfigView {
        target_folder: "./target"@,
        output_folder: "./output"@,
        output_structure: OutputStructure::Structured,
        codex_endpoints: seq!["http://localhost:8080"@],
        storage_params: StorageParams {
            price: 1000,
            nodes: 10,
            tolerance: 5,
            proof_probability: 100,
            duration_days: 6,
            expiry_minutes: 60,
            collateral: 1,
        },
    }
}

/// The configuration before the command line is applied: the one read from
/// a file, or the default one.
pub open spec fn base_config(from_file: Option<Config>) -> ConfigView {
    match from_file {
        Some(c) => c@,
        None => default_config_view(),
    }
}

} // verus!
