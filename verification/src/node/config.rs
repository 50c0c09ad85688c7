//! The node's settings after the command line has had its say.

use vstd::prelude::*;
use vstd::string::*;
use crate::net::{format_host_port, host_port_text, listen_port, port_of};
use crate::node::cli::Cli;
use crate::settings::Settings;

verus! {

/// The port that a node registers with when its listening address names
/// none.
pub const FALLBACK_PORT: u16 = 8080;

/// The settings `loaded` with the command line's overrides applied: the
/// listening address and the scratch directory, each where it is given.
pub fn load_settings_with_cli_overrides(cli: &Cli, loaded: Settings) -> (settings: Settings)
    ensures
        settings.node.address@ == match cli.address {
            Some(address) => address@,
            None => loaded.node.address@,
        },
        settings.node.temp_dir@ == match cli.temp_dir {
            Some(dir) => dir@,
            None => loaded.node.temp_dir@,
        },
        settings.client == loaded.client,
        settings.processing == loaded.processing,
{
    let mut settings = loaded;
    match &cli.address {
        Some(address) => {
            settings.node.address = address.clone();
        },
        None => {},
    }
    match &cli.temp_dir {
        Some(dir) => {
            settings.node.temp_dir = dir.clone();
        },
        None => {},
    }
    settings
}

/// The address that the node registers with: the one that the command line
/// names, or else this machine's address, `local_ip`, with the port of the
/// listening address, or 8080 where that names none.
pub fn registration_address(cli_address: Option<&str>, local_ip: &str, listen_address: &str) -> (address:
    String)
    ensures
        address@ == match cli_address {
            Some(given) => given@,
            None => host_port_text(local_ip@, port_of(listen_address@, FALLBACK_PORT)),
        },
{
    match cli_address {
        Some(given) => String::from_str(given),
        None => format_host_port(local_ip, listen_port(listen_address, FALLBACK_PORT)),
    }
}

} // verus!
