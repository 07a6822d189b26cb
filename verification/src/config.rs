//! Runtime configuration: the configuration-file record and the merge of
//! command-line values over it. Reading and parsing the file itself is the
//! surrounding program's concern; the library holds the record and the
//! resolution rules.
use vstd::prelude::*;

verus! {

/// The configuration-file record: every field optional.
pub struct AppConfig {
    pub host: Option<String>,
    pub daemon: Option<u64>,
    pub with_disk: Option<bool>,
}

impl AppConfig {
    /// The record of an absent configuration file.
    pub fn empty() -> (c: AppConfig)
        ensures
            c.host is None,
            c.daemon is None,
            c.with_disk is None,
    {
        AppConfig { host: None, daemon: None, with_disk: None }
    }
}

/// The settings a run works with, after merging.
pub struct RuntimeSettings {
    pub host: String,
    pub output: Option<String>,
    pub daemon: Option<u64>,
    pub with_disk: bool,
}

/// Merges command-line values over the configuration file: the command line
/// wins field by field, the host is required from one of the two, and the
/// disk screen is on when either side asks for it.
pub fn resolve_settings(
    cli_host: Option<String>,
    cli_output: Option<String>,
    cli_daemon: Option<u64>,
    cli_with_disk: bool,
    cfg: AppConfig,
) -> (r: Option<RuntimeSettings>)
    ensures
        r is Some <==> (cli_host is Some || cfg.host is Some),
        r is Some ==> {
            let s = r->0;
            &&& s.host == if cli_host is Some {
                cli_host->0
            } else {
                cfg.host->0
            }
            &&& s.output == cli_output
            &&& s.daemon == if cli_daemon is Some {
                cli_daemon
            } else {
                cfg.daemon
            }
            &&& s.with_disk == (cli_with_disk || cfg.with_disk == Some(true))
        },
{
    let host: String = match cli_host {
        Some(h) => h,
        None => {
            match cfg.host {
                Some(h) => h,
                None => {
                    return None;
                },
            }
        },
    };
    let daemon = match cli_daemon {
        Some(d) => Some(d),
        None => cfg.daemon,
    };
    let with_disk = if cli_with_disk {
        true
    } else {
        match cfg.with_disk {
            Some(b) => b,
            None => false,
        }
    };
    Some(RuntimeSettings { host, output: cli_output, daemon, with_disk })
}

} // verus!
