//! Checks on the top-level shape of the declarative configuration: the
//! keys it must contain and the keys it must not.

use vstd::prelude::*;
use vstd::string::*;

use crate::text::str_eq;

verus! {

/// A fault in the configuration's top-level keys.
#[derive(Debug)]
pub enum ConfigError {
    /// A key the configuration must contain is absent.
    MissingRequiredKey { key: String },
    /// A key the configuration must not contain is present; `suggestion`
    /// names the accepted key to use instead.
    BannedKey { key: String, suggestion: String },
}

/// Whether one of the keys reads `key`.
pub open spec fn has_key(keys: Seq<String>, key: Seq<char>) -> bool {
    exists|i: int| 0 <= i < keys.len() && keys[i]@ == key
}

/// Whether `e` is a `MissingRequiredKey` naming `key`.
pub open spec fn is_missing_key(e: ConfigError, key: Seq<char>) -> bool {
    match e {
        ConfigError::MissingRequiredKey { key: k } => k@ == key,
        _ => false,
    }
}

/// Whether `e` is a `BannedKey` naming `key`, suggesting `suggestion`.
pub open spec fn is_banned_key(e: ConfigError, key: Seq<char>, suggestion: Seq<char>) -> bool {
    match e {
        ConfigError::BannedKey { key: k, suggestion: s } => k@ == key && s@ == suggestion,
        _ => false,
    }
}

/// Rejects a configuration without a `name` entry: the external parser
/// misbehaves when it is absent.
pub fn required(yaml_keys: &Vec<String>) -> (r: Result<(), ConfigError>)
    ensures
        r is Ok <==> has_key(yaml_keys@, "name"@),
        r is Err ==> is_missing_key(r->Err_0, "name"@),
{
    let n = yaml_keys.len();
    let mut i: usize = 0;
    while i < n
        invariant
            0 <= i <= n,
            n == yaml_keys@.len(),
            forall|t: int| 0 <= t < i ==> yaml_keys@[t]@ != "name"@,
        decreases n - i,
    {
        if str_eq(yaml_keys[i].as_str(), "name") {
            return Ok(());
        }
        i += 1;
    }
    Err(ConfigError::MissingRequiredKey { key: String::from_str("name") })
}

/// Rejects a configuration with a `help` entry: the external parser
/// misbehaves when it is present; `about` serves instead.
pub fn banned(yaml_keys: &Vec<String>) -> (r: Result<(), ConfigError>)
    ensures
        r is Ok <==> !has_key(yaml_keys@, "help"@),
        r is Err ==> is_banned_key(r->Err_0, "help"@, "about"@),
{
    let n = yaml_keys.len();
    let mut i: usize = 0;
    while i < n
        invariant
            0 <= i <= n,
            n == yaml_keys@.len(),
            forall|t: int| 0 <= t < i ==> yaml_keys@[t]@ != "help"@,
        decreases n - i,
    {
        if str_eq(yaml_keys[i].as_str(), "help") {
            return Err(
                ConfigError::BannedKey {
                    key: String::from_str("help"),
                    suggestion: String::from_str("about"),
                },
            );
        }
        i += 1;
    }
    Ok(())
}

impl ConfigError {
    /// The diagnostic text for this fault.
    pub fn message(&self) -> (r: String)
        ensures
            r@ == config_error_message_model(self),
    {
        match self {
            ConfigError::MissingRequiredKey { key } => {
                let mut buf = String::from_str("YAML config must contain an entry named '");
                buf.append(key.as_str());
                buf.append("'");
                proof {
                    assert(buf@ =~= config_error_message_model(self));
                }
                buf
            },
            ConfigError::BannedKey { key, suggestion } => {
                let mut buf = String::from_str("YAML config can't contain an entry named '");
                buf.append(key.as_str());
                buf.append("', try '");
                buf.append(suggestion.as_str());
                buf.append("'");
                proof {
                    assert(buf@ =~= config_error_message_model(self));
                }
                buf
            },
        }
    }
}

/// The diagnostic text of a configuration fault.
pub open spec fn config_error_message_model(e: &ConfigError) -> Seq<char> {
    match e {
        ConfigError::MissingRequiredKey { key } => "YAML config must contain an entry named '"@
            + key@ + "'"@,
        ConfigError::BannedKey { key, suggestion } =>
            "YAML config can't contain an entry named '"@ + key@ + "', try '"@ + suggestion@
            + "'"@,
    }
}

} // verus!
