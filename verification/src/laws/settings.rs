//! What the settings are read from.
use crate::config::{Config, ConfigError, Environment, StorageBackendType};
use crate::decimal::{
    decimal, digits, digits_have_their_value, is_digit, parsed, parsing_reads_back_what_was_written,
};
use crate::text::{lowercase, option_view};
use vstd::prelude::*;

verus! {

proof fn lemma_parsed_default(n: nat, max: int)
    requires
        n <= max,
    ensures
        parsed(decimal(n as int), max) == Some(n as int),
{
    parsing_reads_back_what_was_written(n, max);
}

proof fn lemma_defaults()
    ensures
        parsed("445"@, u16::MAX as int) == Some(445int),
        parsed("50"@, u64::MAX as int) == Some(50int),
        parsed("24"@, u64::MAX as int) == Some(24int),
        parsed("4"@, usize::MAX as int) == Some(4int),
        parsed("3000"@, u16::MAX as int) == Some(3000int),
{
    reveal_strlit("445");
    reveal_strlit("50");
    reveal_strlit("24");
    reveal_strlit("4");
    reveal_strlit("3000");
    reveal_with_fuel(digits, 5);
    assert("445"@ =~= digits(445));
    assert("50"@ =~= digits(50));
    assert("24"@ =~= digits(24));
    assert("4"@ =~= digits(4));
    assert("3000"@ =~= digits(3000));
    lemma_parsed_default(445, u16::MAX as int);
    lemma_parsed_default(50, u64::MAX as int);
    lemma_parsed_default(24, u64::MAX as int);
    lemma_parsed_default(4, usize::MAX as int);
    lemma_parsed_default(3000, u16::MAX as int);
}

/// The settings cannot be read without a key and a secret; what is missing is
/// named, the key first.
pub proof fn key_and_secret_are_required(
    vars: &Environment,
    outcome: Result<Config, ConfigError>,
)
    requires
        call_ensures(Config::from_env, (vars,), outcome),
    ensures
        vars.api_key is None ==> outcome == Err::<Config, ConfigError>(ConfigError::MissingApiKey),
        vars.api_key is Some && vars.jwt_secret is None ==> outcome == Err::<Config, ConfigError>(
            ConfigError::MissingJwtSecret,
        ),
        outcome matches Ok(config) ==> Some(config.api_key@) == option_view(vars.api_key) && Some(
            config.jwt_secret@,
        ) == option_view(vars.jwt_secret),
{
}

/// With a key and a secret alone the settings are read, and each is its default.
pub proof fn unset_variables_have_defaults(
    vars: &Environment,
    outcome: Result<Config, ConfigError>,
)
    requires
        call_ensures(Config::from_env, (vars,), outcome),
        outcome is Ok,
    ensures
        ({
            let config = outcome->Ok_0;
            &&& vars.storage_backend is None ==> config.storage_backend
                == StorageBackendType::Local
            &&& vars.local_storage_path is None ==> config.local_storage_path@ == "./uploads"@
            &&& vars.smb_host is None ==> config.smb_host@ == "localhost"@
            &&& vars.smb_port is None ==> config.smb_port == 445
            &&& vars.smb_user is None ==> config.smb_user@.len() == 0
            &&& vars.smb_pass is None ==> config.smb_pass@.len() == 0
            &&& vars.smb_share is None ==> config.smb_share@ == "share"@
            &&& vars.smb_path is None ==> config.smb_path@.len() == 0
            &&& vars.smb_mount_point is None ==> config.smb_mount_point@ == "/Volumes/uploads"@
            &&& vars.s3_endpoint is None ==> config.s3_endpoint is None
            &&& vars.s3_bucket is None ==> config.s3_bucket@ == "uploads"@
            &&& vars.s3_region is None ==> config.s3_region@ == "us-east-1"@
            &&& vars.chunk_size_mb is None ==> config.chunk_size_mb == 50
                && config.chunk_size_bytes == 52428800
            &&& vars.upload_ttl_hours is None ==> config.upload_ttl_hours == 24
            &&& vars.max_concurrent_finalizations is None ==> config.max_concurrent_finalizations
                == 4
            &&& vars.database_path is None ==> config.database_path@ == "./uploads.db"@
            &&& vars.server_port is None ==> config.server_port == 3000
        }),
{
    lemma_defaults();
    reveal_strlit("local");
    reveal_strlit("s3");
    reveal_strlit("smb");
    assert(lowercase("local"@).len() == 5);
}

/// Where no directory for temporary files is set, it is `chunked-uploads` below the
/// system's.
pub proof fn temporary_files_go_below_the_systems(
    vars: &Environment,
    outcome: Result<Config, ConfigError>,
)
    requires
        call_ensures(Config::from_env, (vars,), outcome),
        outcome is Ok,
    ensures
        vars.temp_storage_path matches Some(text) ==> outcome->Ok_0.temp_storage_path@ == text@,
        vars.temp_storage_path is None ==> outcome->Ok_0.temp_storage_path@ == if
            vars.system_temp_dir@.len() == 0 || vars.system_temp_dir@.last() == '/' {
            vars.system_temp_dir@ + "chunked-uploads"@
        } else {
            vars.system_temp_dir@ + "/chunked-uploads"@
        },
{
    reveal_strlit("chunked-uploads");
    reveal_strlit("/chunked-uploads");
    let base = vars.system_temp_dir@;
    assert(base.push('/') + "chunked-uploads"@ =~= base + "/chunked-uploads"@);
}

/// A variable that is set decides its setting: a text is taken as it is, a number
/// as it reads.
pub proof fn set_variables_are_taken(
    vars: &Environment,
    outcome: Result<Config, ConfigError>,
    n: int,
)
    requires
        call_ensures(Config::from_env, (vars,), outcome),
        outcome is Ok,
        0 <= n,
    ensures
        ({
            let config = outcome->Ok_0;
            &&& vars.local_storage_path matches Some(s) ==> config.local_storage_path@ == s@
            &&& vars.smb_host matches Some(s) ==> config.smb_host@ == s@
            &&& vars.smb_user matches Some(s) ==> config.smb_user@ == s@
            &&& vars.smb_pass matches Some(s) ==> config.smb_pass@ == s@
            &&& vars.smb_share matches Some(s) ==> config.smb_share@ == s@
            &&& vars.smb_path matches Some(s) ==> config.smb_path@ == s@
            &&& vars.smb_mount_point matches Some(s) ==> config.smb_mount_point@ == s@
            &&& option_view(config.s3_endpoint) == option_view(vars.s3_endpoint)
            &&& vars.s3_bucket matches Some(s) ==> config.s3_bucket@ == s@
            &&& vars.s3_region matches Some(s) ==> config.s3_region@ == s@
            &&& vars.database_path matches Some(s) ==> config.database_path@ == s@
            &&& option_view(vars.smb_port) == Some(decimal(n)) ==> config.smb_port == n
            &&& option_view(vars.chunk_size_mb) == Some(decimal(n)) ==> config.chunk_size_mb == n
                && config.chunk_size_bytes == 1024 * 1024 * n
            &&& option_view(vars.upload_ttl_hours) == Some(decimal(n)) ==> config.upload_ttl_hours
                == n
            &&& option_view(vars.max_concurrent_finalizations) == Some(decimal(n))
                ==> config.max_concurrent_finalizations == n
            &&& option_view(vars.server_port) == Some(decimal(n)) ==> config.server_port == n
            &&& config.chunk_size_bytes == 1024 * 1024 * config.chunk_size_mb
        }),
{
    digits_have_their_value(n as nat);
    assert(is_digit(digits(n as nat)[0]));
}

/// The backend is named in whatever case it is written, and an unknown name stands
/// for local storage.
pub proof fn backends_are_named_in_any_case(
    vars: &Environment,
    outcome: Result<Config, ConfigError>,
)
    requires
        call_ensures(Config::from_env, (vars,), outcome),
        outcome is Ok,
        vars.storage_backend is Some,
    ensures
        (outcome->Ok_0.storage_backend == StorageBackendType::S3) == (lowercase(
            vars.storage_backend->0@,
        ) == "s3"@),
        (outcome->Ok_0.storage_backend == StorageBackendType::Smb) == (lowercase(
            vars.storage_backend->0@,
        ) == "smb"@),
{
    reveal_strlit("s3");
    reveal_strlit("smb");
    assert("s3"@.len() == 2 && "smb"@.len() == 3);
}

/// The text is a number of at most `max`: digits, behind a `+` or not.
pub open spec fn reads_as_at_most(text: Option<String>, max: int) -> bool {
    text matches Some(s) ==> parsed(s@, max) is Some
}

/// The settings are read exactly where there are a key and a secret and every
/// number that is set is one; otherwise the first variable that is wrong is named,
/// in this order: key, secret, the share's port, chunk size, time to live, number of
/// finalizations, the service's port.
pub proof fn the_first_wrong_variable_is_named(
    vars: &Environment,
    outcome: Result<Config, ConfigError>,
)
    requires
        call_ensures(Config::from_env, (vars,), outcome),
        vars.api_key is Some,
        vars.jwt_secret is Some,
    ensures
        outcome is Ok == (reads_as_at_most(vars.smb_port, 65535) && reads_as_at_most(
            vars.chunk_size_mb,
            u64::MAX as int,
        ) && reads_as_at_most(vars.upload_ttl_hours, u64::MAX as int) && reads_as_at_most(
            vars.max_concurrent_finalizations,
            usize::MAX as int,
        ) && reads_as_at_most(vars.server_port, 65535)),
        outcome matches Err(e) ==> {
            &&& !reads_as_at_most(vars.smb_port, 65535) ==> e == ConfigError::InvalidSmbPort
            &&& reads_as_at_most(vars.smb_port, 65535) && !reads_as_at_most(
                vars.chunk_size_mb,
                u64::MAX as int,
            ) ==> e == ConfigError::InvalidChunkSize
            &&& reads_as_at_most(vars.smb_port, 65535) && reads_as_at_most(
                vars.chunk_size_mb,
                u64::MAX as int,
            ) && !reads_as_at_most(vars.upload_ttl_hours, u64::MAX as int) ==> e
                == ConfigError::InvalidUploadTtl
            &&& reads_as_at_most(vars.smb_port, 65535) && reads_as_at_most(
                vars.chunk_size_mb,
                u64::MAX as int,
            ) && reads_as_at_most(vars.upload_ttl_hours, u64::MAX as int) && !reads_as_at_most(
                vars.max_concurrent_finalizations,
                usize::MAX as int,
            ) ==> e == ConfigError::InvalidFinalizationLimit
            &&& reads_as_at_most(vars.smb_port, 65535) && reads_as_at_most(
                vars.chunk_size_mb,
                u64::MAX as int,
            ) && reads_as_at_most(vars.upload_ttl_hours, u64::MAX as int) && reads_as_at_most(
                vars.max_concurrent_finalizations,
                usize::MAX as int,
            ) ==> e == ConfigError::InvalidServerPort
        },
{
    lemma_defaults();
}

/// What is wrong is said in words that name the variable.
pub proof fn wrong_variables_are_named_in_words(error: &ConfigError, text: String)
    requires
        call_ensures(ConfigError::message, (error,), text),
    ensures
        *error == ConfigError::MissingApiKey ==> text@ == "API_KEY must be set"@,
        *error == ConfigError::MissingJwtSecret ==> text@ == "JWT_SECRET must be set"@,
        *error == ConfigError::InvalidSmbPort ==> text@ == "Invalid SMB_PORT"@,
        *error == ConfigError::InvalidChunkSize ==> text@ == "Invalid CHUNK_SIZE_MB"@,
        *error == ConfigError::InvalidUploadTtl ==> text@ == "Invalid UPLOAD_TTL_HOURS"@,
        *error == ConfigError::InvalidFinalizationLimit ==> text@
            == "Invalid MAX_CONCURRENT_FINALIZATIONS"@,
        *error == ConfigError::InvalidServerPort ==> text@ == "Invalid SERVER_PORT"@,
{
}

/// A request may be one chunk long and a megabyte more.
pub proof fn bodies_may_be_a_chunk_and_a_megabyte(config: &Config, bytes: usize)
    requires
        call_ensures(Config::body_limit, (config,), bytes),
    ensures
        bytes == config.chunk_size_bytes + 1024 * 1024,
{
}

/// The chunk size is in range exactly where it can be counted in bytes, or is no
/// number at all.
pub proof fn chunk_sizes_are_counted_in_bytes(vars: &Environment, yes: bool, n: nat)
    requires
        call_ensures(Environment::has_chunk_size_in_range, (vars,), yes),
        n <= u64::MAX,
    ensures
        vars.chunk_size_mb is None ==> yes,
        option_view(vars.chunk_size_mb) == Some(decimal(n as int)) ==> yes == (n * 1024 * 1024
            <= u64::MAX),
{
    lemma_defaults();
    lemma_parsed_default(n, u64::MAX as int);
}

} // verus!
