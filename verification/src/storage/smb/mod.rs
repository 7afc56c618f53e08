//! Files on an SMB share.
//!
//! Parts are kept on the local disk and also written, in the background, to a
//! partial file on the share, each at its place. Once all have arrived the
//! partial file is completed where needed and renamed.
pub mod directories;
pub mod finalize;
pub mod ready;
pub mod requests;
pub mod sync;
pub mod unc;
pub mod whole;
pub mod writer;

use crate::config::Config;
use crate::decimal::{decimal, push_decimal};
use crate::error::{AppError, ErrorView};
use crate::paths::{join, joined};
use crate::storage::parts::{
    part_path, part_path_of, read_step_for, store_steps, store_steps_for,
};
use crate::storage::smb::unc::{is_unc, parse_unc, unc_address, UncAddress, UncView};
use crate::storage::steps::{step_views, FileStep, StepView};
use crate::storage::{
    build_stored_name, response_path, sanitize_target_path, sanitized, stored_name,
};
use crate::text::{
    contains, ends_with, lowercase, occurs, option_str_view, same, starts_with, strip_prefix,
    to_lowercase, trim_separators, trimmed,
};
use vstd::prelude::*;

verus! {

/// How to reach the share.
#[derive(Debug)]
pub struct SmbConfig {
    /// The share as a UNC path.
    pub unc_path: String,
    pub host: String,
    pub share: String,
    pub port: u16,
    pub username: String,
    pub password: String,
    /// The directory within the share below which files are kept.
    pub base_path: String,
}

/// The share as a UNC path. A port other than 445 is named.
pub open spec fn share_unc(host: Seq<char>, port: u16, share: Seq<char>) -> Seq<char> {
    if port == 445 {
        "\\\\"@ + host + "\\"@ + share
    } else {
        "\\\\"@ + host + ":"@ + decimal(port as int) + "\\"@ + share
    }
}

/// `config` says how to reach the share that the settings name.
pub open spec fn reaches(config: SmbConfig, settings: Config) -> bool {
    &&& config.unc_path@ == share_unc(settings.smb_host@, settings.smb_port, settings.smb_share@)
    &&& config.host@ == settings.smb_host@
    &&& config.share@ == settings.smb_share@
    &&& config.port == settings.smb_port
    &&& config.username@ == settings.smb_user@
    &&& config.password@ == settings.smb_pass@
    &&& config.base_path@ == trimmed(settings.smb_path@, false)
}

/// Storage on an SMB share.
#[derive(Debug)]
pub struct SmbStorage {
    pub smb_config: SmbConfig,
    /// The root of all parts on the local disk.
    pub parts_path: String,
}

/// Where a finished file is kept within the share.
pub open spec fn smb_file_path(
    base_path: Seq<char>,
    upload_id: Seq<char>,
    filename: Seq<char>,
    target_path: Option<Seq<char>>,
) -> Seq<char> {
    let name = stored_name(upload_id, filename);
    let base = trimmed(base_path, false);
    match target_path {
        Some(path) => if sanitized(path).len() == 0 {
            if base.len() == 0 {
                name
            } else {
                base + "/"@ + name
            }
        } else if base.len() == 0 {
            sanitized(path) + "/"@ + name
        } else {
            base + "/"@ + sanitized(path) + "/"@ + name
        },
        None => if base.len() == 0 {
            "files/"@ + name
        } else {
            base + "/files/"@ + name
        },
    }
}

/// Where a file is kept within the share until it is complete.
pub open spec fn smb_partial_path(
    base_path: Seq<char>,
    upload_id: Seq<char>,
    filename: Seq<char>,
    target_path: Option<Seq<char>>,
) -> Seq<char> {
    smb_file_path(base_path, upload_id, filename, target_path) + ".partial"@
}

/// The path within the share that a relative path stands for: below the base
/// path, unless it already is. Where the base path ends in `files`, a leading
/// `files` stands for the base path itself.
pub open spec fn normalized(base_path: Seq<char>, path: Seq<char>) -> Seq<char> {
    let clean = trimmed(path, true);
    let base = trimmed(base_path, false);
    if clean.len() == 0 {
        base
    } else if base.len() == 0 {
        clean
    } else if clean == base || (base + "/"@).is_prefix_of(clean) {
        clean
    } else if "files"@.is_suffix_of(base) && clean == "files"@ {
        base
    } else if "files"@.is_suffix_of(base) && "files/"@.is_prefix_of(clean) {
        if clean.len() == "files/"@.len() {
            base
        } else {
            base + "/"@ + clean.skip("files/"@.len() as int)
        }
    } else {
        base + "/"@ + clean
    }
}

/// What is answered when the share's UNC path cannot be read.
pub open spec fn invalid_unc(unc_path: Seq<char>) -> ErrorView {
    ErrorView::Storage(
        "Invalid UNC path "@ + unc_path + ": "@
            + "Invalid argument: UNC path must start with two slashes/backslashes"@,
    )
}

/// The address of a path within the share.
pub open spec fn address_of(config: SmbConfig, path: Seq<char>) -> UncView {
    UncView {
        path: Some(normalized(config.base_path@, path)),
        ..unc_address(config.unc_path@)
    }
}

/// What a failure to connect probably means.
pub open spec fn diagnosis(error: Seq<char>, config: SmbConfig) -> Seq<char> {
    let low = lowercase(error);
    if occurs(low, "no route to host"@) || occurs(low, "connection refused"@) {
        "Network connectivity issue. Cannot reach SMB server at "@ + config.unc_path@
    } else if occurs(low, "timeout"@) || occurs(low, "timed out"@) {
        "Connection timeout. Server may be unreachable or firewall blocking port"@
    } else if occurs(low, "access denied"@) || occurs(low, "authentication"@) || occurs(
        low,
        "login"@,
    ) {
        "Authentication failed. Check username '"@ + config.username@ + "' and password"@
    } else if occurs(low, "not found"@) || occurs(low, "does not exist"@) {
        "SMB share '"@ + config.share@ + "' not found on server "@ + config.host@
    } else if occurs(low, "permission"@) {
        "Permission denied. User '"@ + config.username@ + "' may not have access to this share"@
    } else {
        "Connection error: "@ + error
    }
}

/// What a failure to connect is reported as.
pub open spec fn connect_failure(error: Seq<char>, config: SmbConfig) -> ErrorView {
    ErrorView::Storage(
        "Failed to connect to SMB server: "@ + error + "\n\nDiagnosis: "@ + diagnosis(
            error,
            config,
        ) + "\n\nConfiguration:\n  - Host: "@ + config.host@ + ":"@ + decimal(config.port as int)
            + "\n  - Share: "@ + config.share@ + "\n  - User: "@ + config.username@
            + "\n  - UNC Path: "@ + config.unc_path@,
    )
}

/// What is found behind a path on the share.
#[derive(Debug, Clone, Copy, PartialEq, Eq, Structural)]
pub enum ResourceKind {
    File,
    Directory,
    Other,
}

/// A storage failure with a message of two pieces.
pub(crate) fn storage_failure(prefix: &str, detail: &str) -> (failure: AppError)
    ensures
        failure@ == ErrorView::Storage(prefix@ + detail@),
{
    let mut message: String = prefix.to_owned();
    message.append(detail);
    AppError::Storage(message)
}

impl SmbConfig {
    /// Reads how to reach the share from the settings.
    pub fn new(settings: &Config) -> (config: SmbConfig)
        ensures
            reaches(config, *settings),
    {
        let mut unc_path: String = "\\\\".to_owned();
        unc_path.append(settings.smb_host.as_str());
        if settings.smb_port != 445 {
            unc_path.append(":");
            push_decimal(&mut unc_path, settings.smb_port as i64);
        }
        unc_path.append("\\");
        unc_path.append(settings.smb_share.as_str());
        SmbConfig {
            unc_path,
            host: settings.smb_host.clone(),
            share: settings.smb_share.clone(),
            port: settings.smb_port,
            username: settings.smb_user.clone(),
            password: settings.smb_pass.clone(),
            base_path: trim_separators(settings.smb_path.as_str(), false),
        }
    }

    /// The path within the share that a relative path stands for.
    pub fn normalize_relative_path(&self, path: &str) -> (whole: String)
        ensures
            whole@ == normalized(self.base_path@, path@),
    {
        let clean: String = trim_separators(path, true);
        let base: String = trim_separators(self.base_path.as_str(), false);
        if clean.as_str().is_empty() {
            return base;
        }
        if base.as_str().is_empty() {
            return clean;
        }
        let mut below: String = base.clone();
        below.append("/");
        if same(clean.as_str(), base.as_str()) || starts_with(clean.as_str(), below.as_str()) {
            return clean;
        }
        if ends_with(base.as_str(), "files") {
            if same(clean.as_str(), "files") {
                return base;
            }
            if let Some(rest) = strip_prefix(clean.as_str(), "files/") {
                if rest.as_str().is_empty() {
                    return base;
                }
                below.append(rest.as_str());
                return below;
            }
        }
        below.append(clean.as_str());
        below
    }

    /// The address of the share.
    pub fn share_address(&self) -> (outcome: Result<UncAddress, AppError>)
        ensures
            match outcome {
                Ok(address) => is_unc(self.unc_path@) && address@ == unc_address(self.unc_path@),
                Err(e) => !is_unc(self.unc_path@) && e@ == invalid_unc(self.unc_path@),
            },
    {
        match parse_unc(self.unc_path.as_str()) {
            Ok(address) => Ok(address),
            Err(e) => {
                let mut prefix: String = "Invalid UNC path ".to_owned();
                prefix.append(self.unc_path.as_str());
                prefix.append(": ");
                Err(storage_failure(prefix.as_str(), e.as_str()))
            },
        }
    }

    /// The address of a path within the share.
    pub fn build_unc_path_from_relative(&self, path: &str) -> (outcome: Result<
        UncAddress,
        AppError,
    >)
        ensures
            match outcome {
                Ok(address) => is_unc(self.unc_path@) && address@ == address_of(*self, path@),
                Err(e) => !is_unc(self.unc_path@) && e@ == invalid_unc(self.unc_path@),
            },
    {
        match self.share_address() {
            Ok(address) => Ok(
                UncAddress {
                    server: address.server,
                    share: address.share,
                    path: Some(self.normalize_relative_path(path)),
                },
            ),
            Err(e) => Err(e),
        }
    }

    /// The address of a file to delete: a UNC path stands for itself, any other
    /// path lies within the share.
    pub fn delete_target(&self, path: &str) -> (outcome: Result<UncAddress, AppError>)
        ensures
            if is_unc(path@) {
                outcome matches Ok(address) && address@ == unc_address(path@)
            } else {
                match outcome {
                    Ok(address) => is_unc(self.unc_path@) && address@ == address_of(*self, path@),
                    Err(e) => !is_unc(self.unc_path@) && e@ == invalid_unc(self.unc_path@),
                }
            },
    {
        match parse_unc(path) {
            Ok(address) => Ok(address),
            Err(_) => self.build_unc_path_from_relative(path),
        }
    }

    /// What a failure to connect probably means.
    pub fn diagnose_connection_error(&self, error: &str) -> (text: String)
        ensures
            text@ == diagnosis(error@, *self),
    {
        let low: String = to_lowercase(error);
        let low: &str = low.as_str();
        if contains(low, "no route to host") || contains(low, "connection refused") {
            let mut text: String =
                "Network connectivity issue. Cannot reach SMB server at ".to_owned();
            text.append(self.unc_path.as_str());
            text
        } else if contains(low, "timeout") || contains(low, "timed out") {
            "Connection timeout. Server may be unreachable or firewall blocking port".to_owned()
        } else if contains(low, "access denied") || contains(low, "authentication") || contains(
            low,
            "login",
        ) {
            let mut text: String = "Authentication failed. Check username '".to_owned();
            text.append(self.username.as_str());
            text.append("' and password");
            text
        } else if contains(low, "not found") || contains(low, "does not exist") {
            let mut text: String = "SMB share '".to_owned();
            text.append(self.share.as_str());
            text.append("' not found on server ");
            text.append(self.host.as_str());
            text
        } else if contains(low, "permission") {
            let mut text: String = "Permission denied. User '".to_owned();
            text.append(self.username.as_str());
            text.append("' may not have access to this share");
            text
        } else {
            let mut text: String = "Connection error: ".to_owned();
            text.append(error);
            text
        }
    }

    /// What a failure to connect is reported as.
    pub fn connection_failure(&self, error: &str) -> (failure: AppError)
        ensures
            failure@ == connect_failure(error@, *self),
    {
        let diagnosed: String = self.diagnose_connection_error(error);
        let mut message: String = "Failed to connect to SMB server: ".to_owned();
        message.append(error);
        message.append("\n\nDiagnosis: ");
        message.append(diagnosed.as_str());
        message.append("\n\nConfiguration:\n  - Host: ");
        message.append(self.host.as_str());
        message.append(":");
        push_decimal(&mut message, self.port as i64);
        message.append("\n  - Share: ");
        message.append(self.share.as_str());
        message.append("\n  - User: ");
        message.append(self.username.as_str());
        message.append("\n  - UNC Path: ");
        message.append(self.unc_path.as_str());
        AppError::Storage(message)
    }

    /// What the health check says when a connection was open already.
    pub fn connected_message() -> (text: String)
        ensures
            text@ == "SMB connected"@,
    {
        "SMB connected".to_owned()
    }

    /// What the health check says of an attempt to connect.
    pub fn health_message(&self, failure: Option<&str>) -> (answer: (bool, String))
        ensures
            answer.0 == failure is None,
            answer.1@ == match failure {
                None => "SMB connection established"@,
                Some(error) => "SMB unavailable: "@ + error@ + " ("@ + self.host@ + ":"@ + decimal(
                    self.port as int,
                ) + ")"@,
            },
    {
        match failure {
            None => (true, "SMB connection established".to_owned()),
            Some(error) => {
                let mut text: String = "SMB unavailable: ".to_owned();
                text.append(error);
                text.append(" (");
                text.append(self.host.as_str());
                text.append(":");
                push_decimal(&mut text, self.port as i64);
                text.append(")");
                (false, text)
            },
        }
    }
}

impl SmbStorage {
    /// Storage on the share that the settings name. Parts are kept in the
    /// directory `parts` below the temporary root.
    pub fn new(settings: &Config, temp_storage_path: &str) -> (storage: SmbStorage)
        ensures
            reaches(storage.smb_config, *settings),
            storage.parts_path@ == joined(temp_storage_path@, "parts"@),
    {
        SmbStorage {
            smb_config: SmbConfig::new(settings),
            parts_path: join(temp_storage_path, "parts"),
        }
    }

    /// Where a part is kept on the local disk.
    pub fn get_local_part_path(&self, upload_id: &str, part_number: i32) -> (path: String)
        ensures
            path@ == part_path(self.parts_path@, upload_id@, part_number as int),
    {
        part_path_of(self.parts_path.as_str(), upload_id, part_number)
    }

    /// The directory of an upload's parts.
    pub fn get_upload_parts_dir(&self, upload_id: &str) -> (path: String)
        ensures
            path@ == joined(self.parts_path@, upload_id@),
    {
        join(self.parts_path.as_str(), upload_id)
    }

    /// Where a finished file is kept within the share.
    pub fn get_smb_file_path(&self, upload_id: &str, filename: &str, target_path: Option<&str>) -> (
    path: String)
        ensures
            path@ == smb_file_path(
                self.smb_config.base_path@,
                upload_id@,
                filename@,
                option_str_view(target_path),
            ),
    {
        let name: String = build_stored_name(upload_id, filename);
        let base: String = trim_separators(self.smb_config.base_path.as_str(), false);
        let mut path: String = base.clone();
        match target_path {
            Some(target) => {
                let clean: String = sanitize_target_path(target);
                if clean.as_str().is_empty() {
                    if base.as_str().is_empty() {
                        return name;
                    }
                    path.append("/");
                } else if base.as_str().is_empty() {
                    path = clean;
                    path.append("/");
                } else {
                    path.append("/");
                    path.append(clean.as_str());
                    path.append("/");
                }
            },
            None => {
                if base.as_str().is_empty() {
                    path = "files/".to_owned();
                } else {
                    path.append("/files/");
                }
            },
        }
        path.append(name.as_str());
        path
    }

    /// Where a file is kept within the share until it is complete.
    pub fn get_smb_partial_path(
        &self,
        upload_id: &str,
        filename: &str,
        target_path: Option<&str>,
    ) -> (path: String)
        ensures
            path@ == smb_partial_path(
                self.smb_config.base_path@,
                upload_id@,
                filename@,
                option_str_view(target_path),
            ),
    {
        let mut path: String = self.get_smb_file_path(upload_id, filename, target_path);
        path.append(".partial");
        path
    }

    /// The steps that store a part on the local disk, with its bytes at hand.
    pub fn store_part(&self, upload_id: &str, part_number: i32) -> (steps: Vec<FileStep>)
        ensures
            step_views(steps@) == store_steps(
                part_path(self.parts_path@, upload_id@, part_number as int),
            ),
    {
        let path: String = self.get_local_part_path(upload_id, part_number);
        store_steps_for(path.as_str())
    }

    /// The step that reads a part back from the local disk.
    pub fn read_part(&self, upload_id: &str, part_number: i32) -> (step: FileStep)
        ensures
            step@ == (StepView::ReadBack {
                part_number,
                upload_id: upload_id@,
                path: part_path(self.parts_path@, upload_id@, part_number as int),
            }),
    {
        read_step_for(self.parts_path.as_str(), upload_id, part_number)
    }

    /// The step that removes an upload's parts from the local disk.
    pub fn delete_parts(&self, upload_id: &str) -> (step: FileStep)
        ensures
            step@ == (StepView::RemoveParts { path: joined(self.parts_path@, upload_id@) }),
    {
        FileStep::RemoveParts { path: self.get_upload_parts_dir(upload_id) }
    }

    /// The name of this backend.
    pub fn backend_type(&self) -> (name: String)
        ensures
            name@ == "smb"@,
    {
        "smb".to_owned()
    }

    /// What is answered where the parts are asked to be put together without
    /// being finalized.
    pub fn assemble_parts() -> (failure: AppError)
        ensures
            failure@ == ErrorView::Storage(
                "SMB backend uses finalize_upload directly; assemble_parts not supported"@,
            ),
    {
        AppError::Storage(
            "SMB backend uses finalize_upload directly; assemble_parts not supported".to_owned(),
        )
    }
}

// ---------------------------------------------------------------------------
// Laws
// ---------------------------------------------------------------------------
/// A relative path is put below the base path: what comes of it is the base path
/// itself, or begins with the base path and a slash.
pub proof fn normalized_paths_stay_below_the_base(base_path: Seq<char>, path: Seq<char>)
    requires
        trimmed(base_path, false).len() > 0,
    ensures
        ({
            let base = trimmed(base_path, false);
            let whole = normalized(base_path, path);
            whole == base || (base + "/"@).is_prefix_of(whole)
        }),
{
    reveal_strlit("/");
    let base = trimmed(base_path, false);
    let clean = trimmed(path, true);
    let below = base + "/"@;
    let rest = clean.skip("files/"@.len() as int);
    assert((below + clean).subrange(0, below.len() as int) =~= below);
    assert((below + rest).subrange(0, below.len() as int) =~= below);
}

/// The path that a client is given of a finished file leads back to that file.
/// It does where the path has no outer slashes and does not itself seem to begin
/// with the base path.
pub proof fn response_paths_lead_to_the_file(
    base_path: Seq<char>,
    upload_id: Seq<char>,
    filename: Seq<char>,
    target_path: Option<Seq<char>>,
)
    requires
        ({
            let base = trimmed(base_path, false);
            let response = response_path(upload_id, filename, target_path);
            &&& trimmed(response, true) == response
            &&& base.len() > 0 ==> {
                &&& response != base
                &&& !(base + "/"@).is_prefix_of(response)
                &&& !("files"@.is_suffix_of(base) && (response == "files"@
                    || "files/"@.is_prefix_of(response)))
            }
        }),
    ensures
        normalized(base_path, response_path(upload_id, filename, target_path)) == smb_file_path(
            base_path,
            upload_id,
            filename,
            target_path,
        ),
{
    reveal_strlit("_");
    reveal_strlit("/");
    reveal_strlit("files/");
    reveal_strlit("/files/");
    let base = trimmed(base_path, false);
    let name = stored_name(upload_id, filename);
    let response = response_path(upload_id, filename, target_path);
    assert(response.len() > 0);
    match target_path {
        Some(path) => {
            assert(base + "/"@ + (sanitized(path) + "/"@ + name) =~= base + "/"@ + sanitized(path)
                + "/"@ + name);
        },
        None => {
            assert("/"@ + "files/"@ =~= "/files/"@);
            assert(base + "/"@ + ("files/"@ + name) =~= base + "/files/"@ + name);
        },
    }
}

/// The partial file of an upload is never the finished file.
pub proof fn partial_files_are_apart(
    base_path: Seq<char>,
    upload_id: Seq<char>,
    filename: Seq<char>,
    target_path: Option<Seq<char>>,
)
    ensures
        smb_partial_path(base_path, upload_id, filename, target_path) != smb_file_path(
            base_path,
            upload_id,
            filename,
            target_path,
        ),
{
    reveal_strlit(".partial");
}

} // verus!
