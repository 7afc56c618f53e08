//! The settings of the service, read from environment variables.
use crate::decimal::{parse_unsigned, parsed};
use crate::paths::{join, joined};
use crate::text::{copy_option, lowercase, option_view, same, to_lowercase};
use vstd::prelude::*;

verus! {

/// Where finished files are kept.
#[derive(Debug, Clone, Copy, PartialEq, Eq, Structural)]
pub enum StorageBackendType {
    Local,
    Smb,
    S3,
}

/// The settings.
#[derive(Debug)]
pub struct Config {
    pub api_key: String,
    pub jwt_secret: String,
    pub storage_backend: StorageBackendType,
    pub local_storage_path: String,
    /// Where parts are kept until the file is put together; a fast local disk.
    pub temp_storage_path: String,
    pub smb_host: String,
    pub smb_port: u16,
    pub smb_user: String,
    pub smb_pass: String,
    /// The share on the SMB server.
    pub smb_share: String,
    /// The directory within the share.
    pub smb_path: String,
    pub smb_mount_point: String,
    pub s3_endpoint: Option<String>,
    pub s3_bucket: String,
    pub s3_region: String,
    pub chunk_size_mb: u64,
    pub chunk_size_bytes: u64,
    pub upload_ttl_hours: u64,
    pub max_concurrent_finalizations: usize,
    pub database_path: String,
    pub server_port: u16,
}

/// The environment variables that the settings come from, each where it is set,
/// and the system's directory for temporary files.
#[derive(Debug)]
pub struct Environment {
    pub api_key: Option<String>,
    pub jwt_secret: Option<String>,
    pub storage_backend: Option<String>,
    pub local_storage_path: Option<String>,
    pub temp_storage_path: Option<String>,
    pub smb_host: Option<String>,
    pub smb_port: Option<String>,
    pub smb_user: Option<String>,
    pub smb_pass: Option<String>,
    pub smb_share: Option<String>,
    pub smb_path: Option<String>,
    pub smb_mount_point: Option<String>,
    pub s3_endpoint: Option<String>,
    pub s3_bucket: Option<String>,
    pub s3_region: Option<String>,
    pub chunk_size_mb: Option<String>,
    pub upload_ttl_hours: Option<String>,
    pub max_concurrent_finalizations: Option<String>,
    pub database_path: Option<String>,
    pub server_port: Option<String>,
    pub system_temp_dir: String,
}

/// Why the settings cannot be read.
#[derive(Debug, Clone, Copy, PartialEq, Eq, Structural)]
pub enum ConfigError {
    MissingApiKey,
    MissingJwtSecret,
    InvalidSmbPort,
    InvalidChunkSize,
    InvalidUploadTtl,
    InvalidFinalizationLimit,
    InvalidServerPort,
}

/// What a problem with the settings is reported as.
pub open spec fn config_error_text(error: ConfigError) -> Seq<char> {
    match error {
        ConfigError::MissingApiKey => "API_KEY must be set"@,
        ConfigError::MissingJwtSecret => "JWT_SECRET must be set"@,
        ConfigError::InvalidSmbPort => "Invalid SMB_PORT"@,
        ConfigError::InvalidChunkSize => "Invalid CHUNK_SIZE_MB"@,
        ConfigError::InvalidUploadTtl => "Invalid UPLOAD_TTL_HOURS"@,
        ConfigError::InvalidFinalizationLimit => "Invalid MAX_CONCURRENT_FINALIZATIONS"@,
        ConfigError::InvalidServerPort => "Invalid SERVER_PORT"@,
    }
}

impl ConfigError {
    /// The problem in words.
    pub fn message(&self) -> (text: String)
        ensures
            text@ == config_error_text(*self),
    {
        match self {
            ConfigError::MissingApiKey => "API_KEY must be set".to_owned(),
            ConfigError::MissingJwtSecret => "JWT_SECRET must be set".to_owned(),
            ConfigError::InvalidSmbPort => "Invalid SMB_PORT".to_owned(),
            ConfigError::InvalidChunkSize => "Invalid CHUNK_SIZE_MB".to_owned(),
            ConfigError::InvalidUploadTtl => "Invalid UPLOAD_TTL_HOURS".to_owned(),
            ConfigError::InvalidFinalizationLimit => {
                "Invalid MAX_CONCURRENT_FINALIZATIONS".to_owned()
            },
            ConfigError::InvalidServerPort => "Invalid SERVER_PORT".to_owned(),
        }
    }
}

/// The text of a variable, or `default` where it is not set.
pub open spec fn or_default(variable: Option<String>, default: Seq<char>) -> Seq<char> {
    match variable {
        Some(text) => text@,
        None => default,
    }
}

/// The number that a variable, or else its default, stands for.
pub open spec fn number(variable: Option<String>, default: Seq<char>, max: int) -> Option<int> {
    parsed(or_default(variable, default), max)
}

/// The backend that a name stands for, in whatever case it is written. An
/// unknown name stands for local storage.
pub open spec fn backend_named(name: Seq<char>) -> StorageBackendType {
    if lowercase(name) == "s3"@ {
        StorageBackendType::S3
    } else if lowercase(name) == "smb"@ {
        StorageBackendType::Smb
    } else {
        StorageBackendType::Local
    }
}

/// The first thing that is wrong with the variables.
pub open spec fn first_problem(vars: Environment) -> Option<ConfigError> {
    if vars.api_key is None {
        Some(ConfigError::MissingApiKey)
    } else if vars.jwt_secret is None {
        Some(ConfigError::MissingJwtSecret)
    } else if number(vars.smb_port, "445"@, u16::MAX as int) is None {
        Some(ConfigError::InvalidSmbPort)
    } else if number(vars.chunk_size_mb, "50"@, u64::MAX as int) is None {
        Some(ConfigError::InvalidChunkSize)
    } else if number(vars.upload_ttl_hours, "24"@, u64::MAX as int) is None {
        Some(ConfigError::InvalidUploadTtl)
    } else if number(vars.max_concurrent_finalizations, "4"@, usize::MAX as int) is None {
        Some(ConfigError::InvalidFinalizationLimit)
    } else if number(vars.server_port, "3000"@, u16::MAX as int) is None {
        Some(ConfigError::InvalidServerPort)
    } else {
        None
    }
}

/// `config` holds what the variables say, and the default of each that is not
/// set.
pub open spec fn configured(config: Config, vars: Environment) -> bool {
    &&& Some(config.api_key@) == option_view(vars.api_key)
    &&& Some(config.jwt_secret@) == option_view(vars.jwt_secret)
    &&& config.storage_backend == backend_named(or_default(vars.storage_backend, "local"@))
    &&& config.local_storage_path@ == or_default(vars.local_storage_path, "./uploads"@)
    &&& config.temp_storage_path@ == or_default(
        vars.temp_storage_path,
        joined(vars.system_temp_dir@, "chunked-uploads"@),
    )
    &&& config.smb_host@ == or_default(vars.smb_host, "localhost"@)
    &&& Some(config.smb_port as int) == number(vars.smb_port, "445"@, u16::MAX as int)
    &&& config.smb_user@ == or_default(vars.smb_user, Seq::empty())
    &&& config.smb_pass@ == or_default(vars.smb_pass, Seq::empty())
    &&& config.smb_share@ == or_default(vars.smb_share, "share"@)
    &&& config.smb_path@ == or_default(vars.smb_path, Seq::empty())
    &&& config.smb_mount_point@ == or_default(vars.smb_mount_point, "/Volumes/uploads"@)
    &&& option_view(config.s3_endpoint) == option_view(vars.s3_endpoint)
    &&& config.s3_bucket@ == or_default(vars.s3_bucket, "uploads"@)
    &&& config.s3_region@ == or_default(vars.s3_region, "us-east-1"@)
    &&& Some(config.chunk_size_mb as int) == number(vars.chunk_size_mb, "50"@, u64::MAX as int)
    &&& config.chunk_size_bytes == config.chunk_size_mb * 1048576
    &&& Some(config.upload_ttl_hours as int) == number(
        vars.upload_ttl_hours,
        "24"@,
        u64::MAX as int,
    )
    &&& Some(config.max_concurrent_finalizations as int) == number(
        vars.max_concurrent_finalizations,
        "4"@,
        usize::MAX as int,
    )
    &&& config.database_path@ == or_default(vars.database_path, "./uploads.db"@)
    &&& Some(config.server_port as int) == number(vars.server_port, "3000"@, u16::MAX as int)
}

/// A copy of a variable, or of its default.
fn text_or(variable: &Option<String>, default: &str) -> (text: String)
    ensures
        text@ == or_default(*variable, default@),
{
    match variable {
        Some(text) => text.clone(),
        None => default.to_owned(),
    }
}

/// A copy of a variable, or nothing.
fn text_or_empty(variable: &Option<String>) -> (text: String)
    ensures
        text@ == or_default(*variable, Seq::empty()),
{
    match variable {
        Some(text) => text.clone(),
        None => {
            let text: String = String::new();
            assert(text@ =~= Seq::<char>::empty());
            text
        },
    }
}

/// The number that a variable, or else its default, stands for.
fn number_or(variable: &Option<String>, default: &str, max: u64) -> (result: Option<u64>)
    ensures
        match result {
            Some(n) => number(*variable, default@, max as int) == Some(n as int) && n <= max,
            None => number(*variable, default@, max as int) is None,
        },
{
    let text: String = text_or(variable, default);
    parse_unsigned(text.as_str(), max)
}

/// The chunk size in bytes is in range, where the chunk size is a number at all.
pub open spec fn chunk_size_in_range(vars: Environment) -> bool {
    number(vars.chunk_size_mb, "50"@, u64::MAX as int) matches Some(mb) ==> mb * 1048576 <= u64::MAX
}

impl Environment {
    /// Whether the chunk size in bytes is in range.
    pub fn has_chunk_size_in_range(&self) -> (yes: bool)
        ensures
            yes == chunk_size_in_range(*self),
    {
        match number_or(&self.chunk_size_mb, "50", u64::MAX) {
            Some(mb) => mb <= 17592186044415,
            None => true,
        }
    }
}

impl Config {
    /// Reads the settings from the environment variables.
    pub fn from_env(vars: &Environment) -> (outcome: Result<Config, ConfigError>)
        requires
            chunk_size_in_range(*vars),
        ensures
            match outcome {
                Ok(config) => first_problem(*vars) is None && configured(config, *vars),
                Err(e) => first_problem(*vars) == Some(e),
            },
    {
        let api_key: String = match &vars.api_key {
            Some(text) => text.clone(),
            None => return Err(ConfigError::MissingApiKey),
        };
        let jwt_secret: String = match &vars.jwt_secret {
            Some(text) => text.clone(),
            None => return Err(ConfigError::MissingJwtSecret),
        };
        let backend: String = text_or(&vars.storage_backend, "local");
        let backend: String = to_lowercase(backend.as_str());
        let storage_backend: StorageBackendType = if same(backend.as_str(), "s3") {
            StorageBackendType::S3
        } else if same(backend.as_str(), "smb") {
            StorageBackendType::Smb
        } else {
            StorageBackendType::Local
        };
        let temp_storage_path: String = match &vars.temp_storage_path {
            Some(text) => text.clone(),
            None => join(vars.system_temp_dir.as_str(), "chunked-uploads"),
        };
        let smb_port: u16 = match number_or(&vars.smb_port, "445", 65535) {
            Some(n) => n as u16,
            None => return Err(ConfigError::InvalidSmbPort),
        };
        let chunk_size_mb: u64 = match number_or(&vars.chunk_size_mb, "50", u64::MAX) {
            Some(n) => n,
            None => return Err(ConfigError::InvalidChunkSize),
        };
        let upload_ttl_hours: u64 = match number_or(&vars.upload_ttl_hours, "24", u64::MAX) {
            Some(n) => n,
            None => return Err(ConfigError::InvalidUploadTtl),
        };
        let max_concurrent_finalizations: usize = match number_or(
            &vars.max_concurrent_finalizations,
            "4",
            usize::MAX as u64,
        ) {
            Some(n) => n as usize,
            None => return Err(ConfigError::InvalidFinalizationLimit),
        };
        let server_port: u16 = match number_or(&vars.server_port, "3000", 65535) {
            Some(n) => n as u16,
            None => return Err(ConfigError::InvalidServerPort),
        };
        Ok(
            Config {
                api_key,
                jwt_secret,
                storage_backend,
                local_storage_path: text_or(&vars.local_storage_path, "./uploads"),
                temp_storage_path,
                smb_host: text_or(&vars.smb_host, "localhost"),
                smb_port,
                smb_user: text_or_empty(&vars.smb_user),
                smb_pass: text_or_empty(&vars.smb_pass),
                smb_share: text_or(&vars.smb_share, "share"),
                smb_path: text_or_empty(&vars.smb_path),
                smb_mount_point: text_or(&vars.smb_mount_point, "/Volumes/uploads"),
                s3_endpoint: copy_option(&vars.s3_endpoint),
                s3_bucket: text_or(&vars.s3_bucket, "uploads"),
                s3_region: text_or(&vars.s3_region, "us-east-1"),
                chunk_size_mb,
                chunk_size_bytes: chunk_size_mb * 1048576,
                upload_ttl_hours,
                max_concurrent_finalizations,
                database_path: text_or(&vars.database_path, "./uploads.db"),
                server_port,
            },
        )
    }

    /// The largest request body: one chunk and a megabyte to spare.
    pub fn body_limit(&self) -> (bytes: usize)
        requires
            self.chunk_size_bytes + 1048576 <= usize::MAX,
        ensures
            bytes == self.chunk_size_bytes + 1048576,
    {
        (self.chunk_size_bytes + 1048576) as usize
    }
}

} // verus!
