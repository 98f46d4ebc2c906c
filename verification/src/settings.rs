//! Where the program's settings come from, and how it connects.

use crate::text::{begins_with, occurs_at};
use vstd::prelude::*;
use vstd::string::StringExecFns;

verus! {

/// Where the configuration is read from.
#[derive(Debug, PartialEq, Eq)]
pub enum ConfigSource {
    /// From this file, which has to be there.
    Required(String),
    /// From this file if it is there, else the default configuration.
    Optional(String),
    /// The default configuration.
    Default,
}

/// Where the configuration is read from, given the file that was asked for and the usual file.
pub fn config_source(asked_for: Option<String>, usual: Option<String>) -> (r: ConfigSource)
    ensures
        match (asked_for, usual) {
            (Some(file), _) => r == ConfigSource::Required(file),
            (None, Some(file)) => r == ConfigSource::Optional(file),
            (None, None) => r == ConfigSource::Default,
        },
{
    match asked_for {
        Some(file) => ConfigSource::Required(file),
        None => match usual {
            Some(file) => ConfigSource::Optional(file),
            None => ConfigSource::Default,
        },
    }
}

/// What is reported when the file that was asked for cannot be read.
pub open spec fn missing_config_text(file: Seq<char>) -> Seq<char> {
    "error: Could not find config file `"@ + file + "`"@
}

/// What is reported when the file that was asked for cannot be read.
pub fn missing_config_report(file: &str) -> (r: String)
    ensures
        r@ == missing_config_text(file@),
        r@ == "error: Could not find config file `"@ + file@ + "`"@,
{
    "error: Could not find config file `".to_owned().concat(file).concat("`")
}

/// The block engine that is used unless another is asked for.
pub const DEFAULT_JITO_URL: &'static str = "https://mainnet.block-engine.jito.wtf";

/// The settings that the program runs with.
#[derive(Debug, PartialEq, Eq)]
pub struct Settings {
    pub rpc_url: String,
    pub keypair_path: String,
    pub jito_url: String,
}

/// What the command line says goes before `fallback`.
pub open spec fn chosen(asked_for: Option<String>, fallback: Seq<char>) -> Seq<char> {
    match asked_for {
        Some(value) => value@,
        None => fallback,
    }
}

impl Settings {
    /// The settings, from the command line where it says something and otherwise from the
    /// configuration or the default.
    pub fn resolve(
        rpc: Option<String>,
        keypair: Option<String>,
        jito_url: Option<String>,
        config_rpc: String,
        config_keypair: String,
    ) -> (r: Settings)
        ensures
            r.rpc_url@ == chosen(rpc, config_rpc@),
            r.keypair_path@ == chosen(keypair, config_keypair@),
            r.jito_url@ == chosen(jito_url, DEFAULT_JITO_URL@),
            rpc matches Some(url) ==> r.rpc_url@ == url@,
            rpc is None ==> r.rpc_url@ == config_rpc@,
            keypair matches Some(path) ==> r.keypair_path@ == path@,
            keypair is None ==> r.keypair_path@ == config_keypair@,
            jito_url matches Some(url) ==> r.jito_url@ == url@,
            jito_url is None ==> r.jito_url@ == "https://mainnet.block-engine.jito.wtf"@,
    {
        let rpc_url = match rpc {
            Some(url) => url,
            None => config_rpc,
        };
        let keypair_path = match keypair {
            Some(path) => path,
            None => config_keypair,
        };
        let jito_url = match jito_url {
            Some(url) => url,
            None => DEFAULT_JITO_URL.to_owned(),
        };
        Settings { rpc_url, keypair_path, jito_url }
    }
}

/// Whether a connection to `url` is encrypted.
pub fn uses_tls(url: &str) -> (r: bool)
    ensures
        r == occurs_at("https"@, url@, 0),
{
    begins_with(url, "https")
}

} // verus!
