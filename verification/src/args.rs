//! What the command lines of the client and of the proxy say.

use vstd::prelude::*;

use crate::logging::LogLevel;

verus! {

/// Common arguments between server and client.
#[derive(Debug, Clone)]
pub struct Args {
    /// IP proxy address, including the port number
    pub proxy_address: String,
    /// Enable TLS key logging in the results directory.
    pub log_keys: bool,
    /// Directory to store the desired results
    pub results_dir: Option<String>,
    /// Enable qlog output in the results directory.
    pub qlog: bool,
    /// Log verbosity level
    pub log_level: LogLevel,
    /// Congestion control algorithm to use for the inner and outer QUIC connections.
    pub cc_algorithm: String,
    /// Override the initial_max_path_id value for multipath.
    pub initial_max_path_id: Option<u64>,
}

#[derive(Debug, Clone)]
pub struct ClientArgs {
    pub common: Args,
    /// IP client address, including the port number
    pub client_address: String,
    /// Proxy authority
    pub proxy_authority: String,
    /// Target server host.
    pub target_ip: String,
    /// Target server port.
    pub target_port: String,
    /// Path to the Certificate Authority used by the end-to-end connection.
    pub ca: String,
    /// Hostname of the server being connected to.
    pub server_name: String,
    /// GET request filepath (one per tunnel).
    pub endpoint: Vec<String>,
    /// Logs statistics for the inner and outer connections.
    pub log_stats: bool,
    /// Stores responses of the inner connection.
    pub keep_resp: bool,
    /// Whether to leave the certificate of the peer unverified.
    pub skip_verify: bool,
    /// Enable the capsule protocol (reliable MASQUE).
    pub reliable: bool,
    /// HTTP/3 priority header values for outer tunnel connections (one per CONNECT-UDP request).
    pub outer_prios: Vec<String>,
    /// HTTP/3 priority header value for the inner tunnel connections.
    pub inner_prio: String,
    /// Maximum idle timeout in seconds before the connection closes.
    pub idle_timeout_secs: u64,
    /// Enable multipath QUIC for the outer connection to the proxy.
    pub multipath: bool,
    /// Additional local addresses for multipath.
    pub extra_addresses: Vec<String>,
    /// Packet scheduling algorithm for multipath.
    pub scheduler: String,
    /// Timeout in seconds for multipath path probing.
    pub probe_timeout: u64,
}

#[derive(Debug, Clone)]
pub struct ProxyArgs {
    pub common: Args,
    /// Path to the TLS certificate.
    pub cert: String,
    /// Path to the private TLS key.
    pub key: String,
    /// Enable multipath QUIC on the proxy.
    pub multipath: bool,
    /// Additional listen addresses for multipath.
    pub extra_addresses: Vec<String>,
    /// Packet scheduling algorithm for multipath.
    pub scheduler: String,
    /// Logs statistics for each outer connection to the results directory.
    pub log_stats: bool,
}

/// The highest path ID of a multipath connection: the one that was asked for, else the number of
/// extra addresses. `None` without multipath.
pub open spec fn max_path_id(
    multipath: bool,
    initial_max_path_id: Option<u64>,
    extra_addresses: nat,
) -> Option<nat> {
    if !multipath {
        None
    } else {
        match initial_max_path_id {
            Some(id) => Some(id as nat),
            None => Some(extra_addresses),
        }
    }
}

/// The `initial_max_path_id` transport parameter of the outer connection, where it is multipath.
pub fn initial_max_path_id(common: &Args, multipath: bool, extra_addresses: &Vec<String>) -> (id:
    Option<u64>)
    ensures
        match id {
            Some(id) => max_path_id(multipath, common.initial_max_path_id, extra_addresses@.len())
                == Some(id as nat),
            None => !multipath,
        },
{
    if multipath {
        match common.initial_max_path_id {
            Some(id) => Some(id),
            None => Some(extra_addresses.len() as u64),
        }
    } else {
        None
    }
}

/// The file in the results directory that a command line asks for: none without the directory.
pub open spec fn results_path(enabled: bool, results_dir: Option<Seq<char>>, name: Seq<char>) -> Option<
    Seq<char>,
> {
    match results_dir {
        Some(dir) => if enabled {
            Some(dir + name)
        } else {
            None
        },
        None => None,
    }
}

/// An optional text, by its view.
pub open spec fn opt_text(text: Option<String>) -> Option<Seq<char>> {
    match text {
        Some(text) => Some(text@),
        None => None,
    }
}

/// A file in the results directory, where it is asked for and the directory is known.
pub(crate) fn results_file(enabled: bool, results_dir: &Option<String>, name: &str) -> (path: Option<
    String,
>)
    ensures
        opt_text(path) == results_path(enabled, opt_text(*results_dir), name@),
{
    match results_dir {
        Some(dir) => if enabled {
            let mut path = dir.clone();
            path.append(name);
            Some(path)
        } else {
            None
        },
        None => None,
    }
}

/// A connection has a highest path ID exactly where it is multipath. It is the one that the command
/// line asks for, whatever addresses there are, and the number of extra addresses where it asks for
/// none.
pub proof fn law_max_path_id(multipath: bool, asked: Option<u64>, extra: nat)
    ensures
        max_path_id(multipath, asked, extra) is Some <==> multipath,
        multipath && asked is None ==> max_path_id(multipath, asked, extra) == Some(extra),
        multipath ==> (asked matches Some(id) ==> max_path_id(multipath, asked, extra) == Some(
            id as nat,
        )),
{
}

/// A file in the results directory is asked for exactly where it is enabled and the directory is
/// known, and then starts with the directory and ends with its name.
pub proof fn law_results_path(enabled: bool, results_dir: Option<Seq<char>>, name: Seq<char>)
    ensures
        results_path(enabled, results_dir, name) is Some <==> enabled && results_dir is Some,
        results_path(enabled, results_dir, name) matches Some(path) ==> {
            &&& path.len() == results_dir->0.len() + name.len()
            &&& path.take(results_dir->0.len() as int) == results_dir->0
            &&& path.skip(results_dir->0.len() as int) == name
        },
{
    if let Some(path) = results_path(enabled, results_dir, name) {
        assert(path.take(results_dir->0.len() as int) =~= results_dir->0);
        assert(path.skip(results_dir->0.len() as int) =~= name);
    }
}

} // verus!
