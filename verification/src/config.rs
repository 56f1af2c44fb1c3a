//! The versioned configuration decoder: a profile document is structured
//! text (a JSON object); a repository entry inside it may use the current
//! nested shape or the historical flat one. Decoding tries the current
//! shape first, falls back to each known prior shape, and migrates
//! forward; the migration itself (`RepositoryV1::to_latest`) is pure.
//!
//! The JSON tree is carried by `serde_json::Value`, reached only through
//! the trusted accessors below; every decision about shapes, fields and
//! defaults is made here, in verified code.
use vstd::prelude::*;

use crate::profiles::{
    default_action_timeout_seconds, default_exclude_caches, default_repository_kind, BorgError,
    BorgV1Options, Encryption,
    Passphrase, Profile, PruneOptions, Repository, RepositoryKind, RepositoryOptions,
    RepositoryV1, ResticOptions, RusticOptions,
};
use crate::strutil::str_eq;

verus! {

/// Declares serde_json's JSON tree type so values of it can flow through
/// signatures; the tree is opaque here and is read only through the
/// trusted accessors below.
#[verifier::external_type_specification]
#[verifier::external_body]
pub struct ExValue(serde_json::Value);

/// Relies on serde_json::from_str: parses a JSON document, `None` when
/// the text is no valid JSON.
#[verifier::external_body]
fn json_parse(s: &str) -> Option<serde_json::Value> {
    serde_json::from_str::<serde_json::Value>(s).ok()
}

/// Relies on serde_json::Value::get: the value under `key` when this
/// value is an object that has it.
#[verifier::external_body]
fn json_get<'a>(v: &'a serde_json::Value, key: &str) -> Option<&'a serde_json::Value> {
    v.get(key)
}

/// Relies on serde_json::Value::as_str: the owned text when this value is
/// a JSON string.
#[verifier::external_body]
fn json_as_str(v: &serde_json::Value) -> Option<String> {
    v.as_str().map(|s| s.to_owned())
}

/// Relies on serde_json::Value::as_bool: the boolean when this value is a
/// JSON boolean.
#[verifier::external_body]
fn json_as_bool(v: &serde_json::Value) -> Option<bool> {
    v.as_bool()
}

/// Relies on serde_json::Value::as_u64: the number when this value is a
/// JSON number representable as a u64.
#[verifier::external_body]
fn json_as_u64(v: &serde_json::Value) -> Option<u64> {
    v.as_u64()
}

/// Relies on serde_json::Value::as_array: the elements when this value is
/// a JSON array.
#[verifier::external_body]
fn json_as_array<'a>(v: &'a serde_json::Value) -> Option<&'a Vec<serde_json::Value>> {
    v.as_array()
}

/// Relies on serde_json::Value::is_null: whether this value is JSON null.
#[verifier::external_body]
fn json_is_null(v: &serde_json::Value) -> bool {
    v.is_null()
}

/// Decodes an encryption descriptor: the strings `"None"` and
/// `"Keyring"`, or an object carrying `Raw` or `Keyfile`.
fn decode_encryption(v: &serde_json::Value) -> Result<Encryption, BorgError> {
    match json_as_str(v) {
        Some(tag) => {
            if str_eq(tag.as_str(), "None") {
                Ok(Encryption::NoEncryption)
            } else if str_eq(tag.as_str(), "Keyring") {
                Ok(Encryption::Keyring)
            } else {
                Err(BorgError::ConfigMalformed)
            }
        },
        None => {
            if let Some(raw) = json_get(v, "Raw") {
                match json_as_str(raw) {
                    Some(secret) => Ok(Encryption::Raw(Passphrase::new(secret))),
                    None => Err(BorgError::ConfigMalformed),
                }
            } else if let Some(keyfile) = json_get(v, "Keyfile") {
                match json_as_str(keyfile) {
                    Some(path) => Ok(Encryption::Keyfile(path)),
                    None => Err(BorgError::ConfigMalformed),
                }
            } else {
                Err(BorgError::ConfigMalformed)
            }
        },
    }
}

/// Decodes an optional string field: absent and `null` both mean `None`.
fn decode_opt_string(v: &serde_json::Value, key: &str) -> Result<Option<String>, BorgError> {
    match json_get(v, key) {
        None => Ok(None),
        Some(field) => {
            if json_is_null(field) {
                Ok(None)
            } else {
                match json_as_str(field) {
                    Some(s) => Ok(Some(s)),
                    None => Err(BorgError::ConfigMalformed),
                }
            }
        },
    }
}

/// Decodes the borg engine's options (`rsh`, `remote_path`).
fn decode_borg_options(v: &serde_json::Value) -> Result<BorgV1Options, BorgError> {
    let rsh = decode_opt_string(v, "rsh")?;
    let remote_path = decode_opt_string(v, "remote_path")?;
    Ok(BorgV1Options { rsh, remote_path })
}

/// Decodes the nested engine-options variant: an object whose single key
/// names the engine.
fn decode_repository_options(v: &serde_json::Value) -> Result<RepositoryOptions, BorgError> {
    if let Some(borg) = json_get(v, "BorgV1") {
        match decode_borg_options(borg) {
            Ok(options) => Ok(RepositoryOptions::BorgV1(options)),
            Err(e) => Err(e),
        }
    } else if json_get(v, "Rustic").is_some() {
        Ok(RepositoryOptions::Rustic(RusticOptions {  }))
    } else if json_get(v, "Restic").is_some() {
        Ok(RepositoryOptions::Restic(ResticOptions {  }))
    } else {
        Err(BorgError::ConfigMalformed)
    }
}

/// Decodes a `disabled` flag, absent meaning enabled.
fn decode_disabled(v: &serde_json::Value) -> Result<bool, BorgError> {
    match json_get(v, "disabled") {
        None => Ok(false),
        Some(field) => match json_as_bool(field) {
            Some(b) => Ok(b),
            None => Err(BorgError::ConfigMalformed),
        },
    }
}

/// Decodes a repository in the current nested shape:
/// `{path, encryption, disabled, config}`.
fn decode_repository_v2(v: &serde_json::Value) -> Result<Repository, BorgError> {
    let path = match json_get(v, "path") {
        Some(field) => match json_as_str(field) {
            Some(s) => s,
            None => {
                return Err(BorgError::ConfigMalformed);
            },
        },
        None => {
            return Err(BorgError::ConfigMalformed);
        },
    };
    let encryption = match json_get(v, "encryption") {
        Some(field) => decode_encryption(field)?,
        None => {
            return Err(BorgError::ConfigMalformed);
        },
    };
    let disabled = decode_disabled(v)?;
    let config = match json_get(v, "config") {
        Some(field) => decode_repository_options(field)?,
        None => {
            return Err(BorgError::ConfigMalformed);
        },
    };
    Ok(Repository { path, encryption, disabled, config })
}

/// Decodes a repository in the historical flat shape:
/// `{path, rsh, encryption, disabled, kind}`.
fn decode_repository_v1(v: &serde_json::Value) -> Result<RepositoryV1, BorgError> {
    let path = match json_get(v, "path") {
        Some(field) => match json_as_str(field) {
            Some(s) => s,
            None => {
                return Err(BorgError::ConfigMalformed);
            },
        },
        None => {
            return Err(BorgError::ConfigMalformed);
        },
    };
    let rsh = decode_opt_string(v, "rsh")?;
    let encryption = match json_get(v, "encryption") {
        Some(field) => decode_encryption(field)?,
        None => {
            return Err(BorgError::ConfigMalformed);
        },
    };
    let disabled = decode_disabled(v)?;
    let kind = match json_get(v, "kind") {
        None => default_repository_kind(),
        Some(field) => match json_as_str(field) {
            Some(name) => match RepositoryKind::parse(name.as_str()) {
                Ok(k) => k,
                Err(_) => {
                    return Err(BorgError::ConfigMalformed);
                },
            },
            None => {
                return Err(BorgError::ConfigMalformed);
            },
        },
    };
    Ok(RepositoryV1 { path, rsh, encryption, disabled, kind })
}

/// Decodes one repository entry, whichever historical shape it uses: the
/// current shape is tried first; a flat record is migrated forward with
/// the pure `to_latest` migration.
pub fn decode_repository(v: &serde_json::Value) -> Result<Repository, BorgError> {
    match decode_repository_v2(v) {
        Ok(repo) => Ok(repo),
        Err(_) => match decode_repository_v1(v) {
            Ok(record) => Ok(record.to_latest()),
            Err(e) => Err(e),
        },
    }
}

/// Decodes the retention policy. Every count must be a number between 1
/// and the largest retention the model holds.
fn decode_prune_options(v: &serde_json::Value) -> (r: Result<PruneOptions, BorgError>)
    ensures
        r matches Ok(o) ==> o.wf(),
{
    let keep_daily = decode_prune_count(v, "keep_daily")?;
    let keep_weekly = decode_prune_count(v, "keep_weekly")?;
    let keep_monthly = decode_prune_count(v, "keep_monthly")?;
    let keep_yearly = decode_prune_count(v, "keep_yearly")?;
    PruneOptions::new(keep_daily, keep_weekly, keep_monthly, keep_yearly)
}

fn decode_prune_count(v: &serde_json::Value, key: &str) -> (r: Result<u16, BorgError>)
    ensures
        r matches Ok(n) ==> n >= 1,
{
    match json_get(v, key) {
        Some(field) => match json_as_u64(field) {
            Some(n) => {
                if 1 <= n && n <= u16::MAX as u64 {
                    Ok(n as u16)
                } else {
                    Err(BorgError::ConfigMalformed)
                }
            },
            None => Err(BorgError::ConfigMalformed),
        },
        None => Err(BorgError::ConfigMalformed),
    }
}

/// Decodes an array of strings.
fn decode_string_array(v: &serde_json::Value) -> Result<Vec<String>, BorgError> {
    let items = match json_as_array(v) {
        Some(items) => items,
        None => {
            return Err(BorgError::ConfigMalformed);
        },
    };
    let mut out: Vec<String> = Vec::new();
    let mut i: usize = 0;
    while i < items.len()
        decreases items@.len() - i,
    {
        match json_as_str(&items[i]) {
            Some(s) => out.push(s),
            None => {
                return Err(BorgError::ConfigMalformed);
            },
        }
        i = i + 1;
    }
    Ok(out)
}

/// Decodes a whole profile document. `name` and `backup_paths` are
/// required; the exclude patterns default to none, cache exclusion to on,
/// the retention policy to the long defaults, and the action timeout to
/// thirty seconds. Each repository entry may use either historical shape.
pub fn decode_profile(v: &serde_json::Value) -> (r: Result<Profile, BorgError>)
    ensures
        r matches Ok(p) ==> p@.prune_options.wf(),
{
    let name = match json_get(v, "name") {
        Some(field) => match json_as_str(field) {
            Some(s) => s,
            None => {
                return Err(BorgError::ConfigMalformed);
            },
        },
        None => {
            return Err(BorgError::ConfigMalformed);
        },
    };
    let backup_paths = match json_get(v, "backup_paths") {
        Some(field) => decode_string_array(field)?,
        None => {
            return Err(BorgError::ConfigMalformed);
        },
    };
    let exclude_patterns = match json_get(v, "exclude_patterns") {
        Some(field) => decode_string_array(field)?,
        None => Vec::new(),
    };
    let exclude_caches = match json_get(v, "exclude_caches") {
        Some(field) => match json_as_bool(field) {
            Some(b) => b,
            None => {
                return Err(BorgError::ConfigMalformed);
            },
        },
        None => default_exclude_caches(),
    };
    let prune_options = match json_get(v, "prune_options") {
        Some(field) => decode_prune_options(field)?,
        None => PruneOptions::default(),
    };
    let action_timeout_seconds = match json_get(v, "action_timeout_seconds") {
        Some(field) => match json_as_u64(field) {
            Some(n) => n,
            None => {
                return Err(BorgError::ConfigMalformed);
            },
        },
        None => default_action_timeout_seconds(),
    };
    let repo_values = match json_get(v, "repos") {
        Some(field) => match json_as_array(field) {
            Some(items) => items,
            None => {
                return Err(BorgError::ConfigMalformed);
            },
        },
        None => {
            return Err(BorgError::ConfigMalformed);
        },
    };
    let mut repos: Vec<Repository> = Vec::new();
    let mut i: usize = 0;
    while i < repo_values.len()
        decreases repo_values@.len() - i,
    {
        match decode_repository(&repo_values[i]) {
            Ok(repo) => repos.push(repo),
            Err(e) => {
                return Err(e);
            },
        }
        i = i + 1;
    }
    Ok(
        Profile::assemble(
            name,
            backup_paths,
            exclude_patterns,
            exclude_caches,
            prune_options,
            action_timeout_seconds,
            repos,
        ),
    )
}

/// Parses and decodes a profile document from its on-disk text.
pub fn parse_profile(s: &str) -> (r: Result<Profile, BorgError>)
    ensures
        r matches Ok(p) ==> p@.prune_options.wf(),
{
    match json_parse(s) {
        Some(v) => decode_profile(&v),
        None => Err(BorgError::ConfigMalformed),
    }
}

/// Parses one repository entry from JSON text, in either historical
/// shape.
pub fn parse_repository(s: &str) -> Result<Repository, BorgError> {
    match json_parse(s) {
        Some(v) => decode_repository(&v),
        None => Err(BorgError::ConfigMalformed),
    }
}

/// Pulls the `message` field out of one line of an engine's JSON log
/// stream, the shape the borg engine emits with progress logging on.
pub fn extract_log_message(line: &str) -> Option<String> {
    match json_parse(line) {
        Some(v) => match json_get(&v, "message") {
            Some(field) => json_as_str(field),
            None => None,
        },
        None => None,
    }
}

} // verus!
