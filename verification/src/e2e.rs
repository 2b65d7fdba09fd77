//! The end-to-end connection that goes through a tunnel: an HTTP/3 client at the tunnel ingress.

pub mod responses;
pub mod session;

pub use session::quic_client;

use vstd::prelude::*;

use crate::args;
use crate::args::{results_file, ClientArgs};
use crate::helpers;
use crate::helpers::target_addr;
use crate::text;
use crate::text::u64_to_string;
use crate::MAX_STREAMS;

verus! {

/// What a peer may send on a connection before it has to wait.
pub const CONNECTION_LEVEL_BUFFER_SIZE: u64 = 10_000_000;

/// What a peer may send on a stream before it has to wait.
pub const STREAM_LEVEL_BUFFER_SIZE: u64 = 1_000_000;

/// Maximum inner QUIC packet size.
/// Ref: Kühlewind et al. (2021), Section 4.1.
pub const MAX_E2E_QUIC_PACKET_SIZE: usize = 1280;

/// How many DATAGRAM frames are queued in each direction.
pub const DGRAM_BUFFER_SIZE: usize = 65_536;

/// What the command line says of the end-to-end connections.
#[derive(Debug, Clone)]
pub struct E2eClientConfig {
    pub client_address: String,
    pub target_ip: String,
    pub target_port: String,
    pub server_name: String,
    pub endpoint: String,
    pub inner_prio: String,
    pub ca: String,
    pub skip_verify: bool,
    pub cc_algorithm: String,
    pub results_dir: Option<String>,
    pub log_keys: bool,
    pub qlog: bool,
    pub log_stats: bool,
    pub keep_resp: bool,
}

/// The endpoint of tunnels that have none of their own: the first one.
pub open spec fn common_endpoint(endpoints: Seq<String>) -> Seq<char> {
    if endpoints.len() > 0 {
        endpoints[0]@
    } else {
        Seq::empty()
    }
}

impl<'a> From<&'a ClientArgs> for E2eClientConfig {
    fn from(args: &'a ClientArgs) -> (config: Self)
        ensures
            config.client_address@ == args.client_address@,
            config.target_ip@ == args.target_ip@,
            config.target_port@ == args.target_port@,
            config.server_name@ == args.server_name@,
            config.endpoint@ == common_endpoint(args.endpoint@),
            config.inner_prio@ == args.inner_prio@,
            config.ca@ == args.ca@,
            config.skip_verify == args.skip_verify,
            config.cc_algorithm@ == args.common.cc_algorithm@,
            args::opt_text(config.results_dir) == args::opt_text(args.common.results_dir),
            config.log_keys == args.common.log_keys,
            config.qlog == args.common.qlog,
            config.log_stats == args.log_stats,
            config.keep_resp == args.keep_resp,
    {
        let endpoint = if args.endpoint.len() > 0 {
            args.endpoint[0].clone()
        } else {
            String::new()
        };
        assert(endpoint@ =~= common_endpoint(args.endpoint@));
        E2eClientConfig {
            client_address: args.client_address.clone(),
            target_ip: args.target_ip.clone(),
            target_port: args.target_port.clone(),
            server_name: args.server_name.clone(),
            endpoint,
            inner_prio: args.inner_prio.clone(),
            ca: args.ca.clone(),
            skip_verify: args.skip_verify,
            cc_algorithm: args.common.cc_algorithm.clone(),
            results_dir: args.common.results_dir.clone(),
            log_keys: args.common.log_keys,
            qlog: args.common.qlog,
            log_stats: args.log_stats,
            keep_resp: args.keep_resp,
        }
    }
}

impl<'a> vstd::std_specs::convert::FromSpecImpl<&'a ClientArgs> for E2eClientConfig {
    open spec fn obeys_from_spec() -> bool {
        false
    }

    open spec fn from_spec(args: &'a ClientArgs) -> Self {
        arbitrary()
    }
}

/// The transport settings of an end-to-end connection.
#[derive(Debug)]
pub struct E2eQuicConfig {
    pub initial_max_streams: u64,
    pub initial_max_stream_data: u64,
    pub initial_max_data: u64,
    pub max_udp_payload_size: usize,
    pub dgram_queue_len: usize,
    pub cc_algorithm: String,
    pub verify_peer: bool,
    pub ca: String,
    pub log_keys: bool,
}

/// Sets an end-to-end connection up. Its packets leave room for what the tunnel adds.
pub fn e2e_quic_config(client_cfg: &E2eClientConfig) -> (config: E2eQuicConfig)
    ensures
        config.initial_max_streams == MAX_STREAMS,
        config.initial_max_stream_data == STREAM_LEVEL_BUFFER_SIZE,
        config.initial_max_data == CONNECTION_LEVEL_BUFFER_SIZE,
        config.max_udp_payload_size == MAX_E2E_QUIC_PACKET_SIZE,
        config.dgram_queue_len == DGRAM_BUFFER_SIZE,
        config.cc_algorithm@ == client_cfg.cc_algorithm@,
        config.verify_peer == !client_cfg.skip_verify,
        config.ca@ == client_cfg.ca@,
        config.log_keys == client_cfg.log_keys,
{
    E2eQuicConfig {
        initial_max_streams: MAX_STREAMS,
        initial_max_stream_data: STREAM_LEVEL_BUFFER_SIZE,
        initial_max_data: CONNECTION_LEVEL_BUFFER_SIZE,
        max_udp_payload_size: MAX_E2E_QUIC_PACKET_SIZE,
        dgram_queue_len: DGRAM_BUFFER_SIZE,
        cc_algorithm: client_cfg.cc_algorithm.clone(),
        verify_peer: !client_cfg.skip_verify,
        ca: client_cfg.ca.clone(),
        log_keys: client_cfg.log_keys,
    }
}

/// Where an end-to-end connection goes, and the files that log it.
#[derive(Debug)]
pub struct E2eSetup {
    pub peer: String,
    pub local: String,
    pub keylog_file: Option<String>,
    pub qlog_file: Option<String>,
}

/// Works out where an end-to-end connection goes and which files log it. `scid` is the text of its
/// connection ID.
pub fn e2e_setup(config: &E2eClientConfig, scid: &str) -> (setup: E2eSetup)
    ensures
        setup.peer@ == helpers::target_addr_text(config.target_ip@, config.target_port@),
        setup.local@ == config.client_address@,
        args::opt_text(setup.keylog_file) == args::results_path(
            config.log_keys,
            args::opt_text(config.results_dir),
            "/ssl-client.key"@,
        ),
        args::opt_text(setup.qlog_file) == args::results_path(
            config.qlog,
            args::opt_text(config.results_dir),
            "/e2e-"@ + scid@ + ".qlog"@,
        ),
{
    let mut qlog_name = "/e2e-".to_owned();
    qlog_name.append(scid);
    qlog_name.append(".qlog");
    E2eSetup {
        peer: target_addr(config.target_ip.as_str(), config.target_port.as_str()),
        local: config.client_address.clone(),
        keylog_file: results_file(config.log_keys, &config.results_dir, "/ssl-client.key"),
        qlog_file: results_file(config.qlog, &config.results_dir, qlog_name.as_str()),
    }
}

/// The name of the file that something received on a flow goes to.
pub open spec fn data_path(dir: Seq<char>, flow_id: u64, kind: Seq<char>, id: u64) -> Seq<char> {
    dir + "/flow_"@ + text::decimal(flow_id as nat) + kind + text::decimal(id as nat) + ".data"@
}

fn data_file(dir: &str, flow_id: u64, kind: &str, id: u64) -> (path: String)
    ensures
        path@ == data_path(dir@, flow_id, kind@, id),
{
    let mut path = dir.to_owned();
    path.append("/flow_");
    path.append(u64_to_string(flow_id).as_str());
    path.append(kind);
    path.append(u64_to_string(id).as_str());
    path.append(".data");
    path
}

/// The file that the response on a stream goes to.
pub fn response_path(dir: &str, flow_id: u64, stream_id: u64) -> (path: String)
    ensures
        path@ == data_path(dir@, flow_id, "_stream_"@, stream_id),
{
    data_file(dir, flow_id, "_stream_", stream_id)
}

/// The file that the datagrams of a flow go to.
pub fn dgram_path(dir: &str, flow_id: u64, dgram_flow_id: u64) -> (path: String)
    ensures
        path@ == data_path(dir@, flow_id, "_dgram_"@, dgram_flow_id),
{
    data_file(dir, flow_id, "_dgram_", dgram_flow_id)
}

/// The name of the file that the report on a request goes to.
pub open spec fn timing_path_text(dir: Seq<char>, scid: Seq<char>) -> Seq<char> {
    dir + "/e2e-"@ + scid + ".timing.json"@
}

/// The file that the report on a request goes to.
pub fn timing_path(dir: &str, scid: &str) -> (path: String)
    ensures
        path@ == timing_path_text(dir@, scid@),
{
    let mut path = dir.to_owned();
    path.append("/e2e-");
    path.append(scid);
    path.append(".timing.json");
    path
}

/// Nothing that is received shares a file: streams and datagrams go to files of their own, and so
/// does each stream of each flow.
pub proof fn law_data_paths_distinct(
    dir: Seq<char>,
    first: (u64, bool, u64),
    second: (u64, bool, u64),
)
    requires
        first != second,
    ensures
        kind_path(dir, first) != kind_path(dir, second),
{
    if kind_path(dir, first) == kind_path(dir, second) {
        let head = dir + "/flow_"@;
        lemma_same_rest(
            head,
            flow_text(first),
            flow_text(second),
            kind_path(dir, first),
            kind_path(dir, second),
        );
        reveal_strlit("_stream_");
        reveal_strlit("_dgram_");
        reveal_strlit(".data");
        lemma_digits_end(
            first.0 as nat,
            kind_text(first.1) + text::decimal(first.2 as nat) + ".data"@,
            second.0 as nat,
            kind_text(second.1) + text::decimal(second.2 as nat) + ".data"@,
        );
        let first_rest = kind_text(first.1) + text::decimal(first.2 as nat) + ".data"@;
        let second_rest = kind_text(second.1) + text::decimal(second.2 as nat) + ".data"@;
        assert(first_rest[1] == kind_text(first.1)[1]);
        assert(second_rest[1] == kind_text(second.1)[1]);
        assert(first_rest =~= kind_text(first.1) + (text::decimal(first.2 as nat) + ".data"@));
        assert(second_rest =~= kind_text(second.1) + (text::decimal(second.2 as nat) + ".data"@));
        lemma_same_rest(
            kind_text(first.1),
            text::decimal(first.2 as nat) + ".data"@,
            text::decimal(second.2 as nat) + ".data"@,
            first_rest,
            second_rest,
        );
        lemma_digits_end(first.2 as nat, ".data"@, second.2 as nat, ".data"@);
    }
}

/// What stands between the two numbers of a name: whether it is for a datagram flow or a stream.
pub open spec fn kind_text(dgram: bool) -> Seq<char> {
    if dgram {
        "_dgram_"@
    } else {
        "_stream_"@
    }
}

/// The file of a flow and, in it, of a datagram flow or a stream.
pub open spec fn kind_path(dir: Seq<char>, source: (u64, bool, u64)) -> Seq<char> {
    data_path(dir, source.0, kind_text(source.1), source.2)
}

spec fn flow_text(source: (u64, bool, u64)) -> Seq<char> {
    text::decimal(source.0 as nat) + (kind_text(source.1) + text::decimal(source.2 as nat)
        + ".data"@)
}

proof fn lemma_same_rest(
    head: Seq<char>,
    first: Seq<char>,
    second: Seq<char>,
    first_whole: Seq<char>,
    second_whole: Seq<char>,
)
    requires
        first_whole =~= head + first,
        second_whole =~= head + second,
        first_whole == second_whole,
    ensures
        first == second,
{
    assert(first =~= first_whole.skip(head.len() as int));
    assert(second =~= second_whole.skip(head.len() as int));
}

proof fn lemma_digits_end(m: nat, m_rest: Seq<char>, n: nat, n_rest: Seq<char>)
    requires
        text::decimal(m) + m_rest == text::decimal(n) + n_rest,
        m_rest.len() > 0 && !text::is_digit(m_rest[0]),
        n_rest.len() > 0 && !text::is_digit(n_rest[0]),
    ensures
        m == n,
        m_rest == n_rest,
{
    let md = text::decimal(m);
    let nd = text::decimal(n);
    text::lemma_decimal_digits(m);
    text::lemma_decimal_digits(n);
    assert((md + m_rest)[md.len() as int] == m_rest[0]);
    assert((nd + n_rest)[nd.len() as int] == n_rest[0]);
    if md.len() < nd.len() {
        assert((nd + n_rest)[md.len() as int] == nd[md.len() as int]);
    } else if nd.len() < md.len() {
        assert((md + m_rest)[nd.len() as int] == md[nd.len() as int]);
    }
    assert(md =~= (md + m_rest).take(md.len() as int));
    assert(nd =~= (nd + n_rest).take(nd.len() as int));
    assert(m_rest =~= (md + m_rest).skip(md.len() as int));
    assert(n_rest =~= (nd + n_rest).skip(nd.len() as int));
    text::law_decimal_distinct(m, n);
}

/// Tunnels that have no endpoint of their own ask for the first one, and for none where there is
/// none.
pub proof fn law_common_endpoint_is_first(endpoints: Seq<String>)
    ensures
        endpoints.len() > 0 ==> common_endpoint(endpoints) == endpoints[0]@,
        endpoints.len() == 0 ==> common_endpoint(endpoints).len() == 0,
{
}

/// Every file stands in the results directory, and its name says which flow and which stream or
/// datagram flow it is for.
pub proof fn law_files_stand_in_directory(dir: Seq<char>, flow_id: u64, kind: Seq<char>, id: u64)
    ensures
        ({
            let flow = text::decimal(flow_id as nat);
            let number = text::decimal(id as nat);
            let path = data_path(dir, flow_id, kind, id);
            let at = (dir.len() + 6) as int;
            &&& dir.is_prefix_of(path)
            &&& path.subrange(dir.len() as int, at) == "/flow_"@
            &&& path.subrange(at, at + flow.len()) == flow
            &&& path.subrange(at + flow.len(), at + flow.len() + kind.len()) == kind
            &&& path.subrange(at + flow.len() + kind.len(), path.len() - 5) == number
            &&& path.skip(path.len() - 5) == ".data"@
        }),
        forall|scid: Seq<char>| dir.is_prefix_of(#[trigger] timing_path_text(dir, scid)),
{
    reveal_strlit("/flow_");
    reveal_strlit(".data");
    let flow = text::decimal(flow_id as nat);
    let number = text::decimal(id as nat);
    let path = data_path(dir, flow_id, kind, id);
    let at = (dir.len() + 6) as int;
    assert(path.subrange(dir.len() as int, at) =~= "/flow_"@);
    assert(path.subrange(at, at + flow.len()) =~= flow);
    assert(path.subrange(at + flow.len(), at + flow.len() + kind.len()) =~= kind);
    assert(path.subrange(at + flow.len() + kind.len(), path.len() - 5) =~= number);
    assert(path.skip(path.len() - 5) =~= ".data"@);
}

} // verus!
