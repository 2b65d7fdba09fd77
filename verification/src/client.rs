//! The rules of the client: how it is set up, what it asks the proxy for, and what it makes of the
//! answers.

use vstd::prelude::*;
use vstd::utf8;

use crate::args;
use crate::args::{initial_max_path_id, results_file, ClientArgs};
use crate::capsules;
use crate::capsules::sfv_bool_from_header;
use crate::frames;
use crate::frames::{find_header, Header, HeaderView, InboundFrame, InboundFrameView};
use crate::helpers;
use crate::helpers::{flow_id_from_stream_id, masque_path, sfv_bool};
use crate::prios::Priority;
use crate::proxy;
use crate::text;
use crate::text::{bytes_eq, clone_texts};

verus! {

/// How the client connects to the proxy.
#[derive(Debug)]
pub struct ClientSettings {
    /// The extra local addresses that are bound and probed.
    pub extra_addresses: Vec<String>,
    pub initial_max_path_id: Option<u64>,
    /// The name of the packet scheduler.
    pub scheduler: Option<String>,
    pub idle_timeout_secs: u64,
    pub keylog_file: Option<String>,
    pub qlog_dir: Option<String>,
}

/// The idle timeout of the outer connection. It lasts for as long as paths are probed, where
/// there are paths to be probed.
pub open spec fn idle_timeout(args: ClientArgs) -> u64 {
    if args.multipath && args.extra_addresses@.len() > 0 && args.probe_timeout
        > args.idle_timeout_secs {
        args.probe_timeout
    } else {
        args.idle_timeout_secs
    }
}

/// Sets the client up as its command line says.
pub fn client_settings(args: &ClientArgs) -> (settings: ClientSettings)
    ensures
        text::text_views(settings.extra_addresses@) == if args.multipath {
            text::text_views(args.extra_addresses@)
        } else {
            Seq::empty()
        },
        match settings.initial_max_path_id {
            Some(id) => args::max_path_id(
                args.multipath,
                args.common.initial_max_path_id,
                args.extra_addresses@.len(),
            ) == Some(id as nat),
            None => !args.multipath,
        },
        args::opt_text(settings.scheduler) == if args.multipath {
            Some(args.scheduler@)
        } else {
            None
        },
        settings.idle_timeout_secs == idle_timeout(*args),
        args::opt_text(settings.keylog_file) == args::results_path(
            args.common.log_keys,
            args::opt_text(args.common.results_dir),
            "/ssl-client.key"@,
        ),
        args::opt_text(settings.qlog_dir) == if args.common.qlog {
            args::opt_text(args.common.results_dir)
        } else {
            None
        },
{
    let mut extra_addresses: Vec<String> = Vec::new();
    let mut scheduler: Option<String> = None;
    let mut idle_timeout_secs: u64 = args.idle_timeout_secs;
    assert(text::text_views(extra_addresses@) =~= Seq::<Seq<char>>::empty());
    if args.multipath {
        extra_addresses = clone_texts(&args.extra_addresses);
        scheduler = Some(args.scheduler.clone());
        if args.extra_addresses.len() > 0 && args.probe_timeout > idle_timeout_secs {
            idle_timeout_secs = args.probe_timeout;
        }
    }
    let qlog_dir = if args.common.qlog {
        args.common.results_dir.clone()
    } else {
        None
    };
    ClientSettings {
        extra_addresses,
        initial_max_path_id: initial_max_path_id(
            &args.common,
            args.multipath,
            &args.extra_addresses,
        ),
        scheduler,
        idle_timeout_secs,
        keylog_file: results_file(
            args.common.log_keys,
            &args.common.results_dir,
            "/ssl-client.key",
        ),
        qlog_dir,
    }
}

/// The field lines of a request for a UDP tunnel.
pub open spec fn connect_headers(
    authority: Seq<char>,
    ip: Seq<char>,
    port: Seq<char>,
    reliable: bool,
    prio: Seq<char>,
) -> Seq<HeaderView> {
    seq![
        frames::text_header(":method"@, "CONNECT"@),
        frames::text_header(":protocol"@, "connect-udp"@),
        frames::text_header(":authority"@, authority),
        frames::text_header(":scheme"@, "https"@),
        frames::text_header(":path"@, helpers::masque_path_text(ip, port)),
        frames::text_header("capsule-protocol"@, helpers::sfv_bool_text(reliable)),
        frames::text_header("priority"@, prio),
    ]
}

/// A request for a UDP tunnel with the given priority.
pub fn connect_request(args: &ClientArgs, prio: &str) -> (headers: Vec<Header>)
    ensures
        frames::header_views(headers@) == connect_headers(
            args.proxy_authority@,
            args.target_ip@,
            args.target_port@,
            args.reliable,
            prio@,
        ),
{
    let path = masque_path(args.target_ip.as_str(), args.target_port.as_str());
    let headers: Vec<Header> = vec![
        Header::from_text(":method", "CONNECT"),
        Header::from_text(":protocol", "connect-udp"),
        Header::from_text(":authority", args.proxy_authority.as_str()),
        Header::from_text(":scheme", "https"),
        Header::from_text(":path", path.as_str()),
        Header::from_text("capsule-protocol", sfv_bool(args.reliable).as_str()),
        Header::from_text("priority", prio),
    ];
    assert(frames::header_views(headers@) =~= connect_headers(
        args.proxy_authority@,
        args.target_ip@,
        args.target_port@,
        args.reliable,
        prio@,
    ));
    headers
}

/// The requests of a command line: one for each priority, in their order.
pub fn connect_requests(args: &ClientArgs) -> (requests: Vec<Vec<Header>>)
    ensures
        requests@.len() == args.outer_prios@.len(),
        forall|i: int|
            0 <= i < requests@.len() ==> frames::header_views(#[trigger] requests@[i]@)
                == connect_headers(
                args.proxy_authority@,
                args.target_ip@,
                args.target_port@,
                args.reliable,
                args.outer_prios@[i]@,
            ),
{
    let mut requests: Vec<Vec<Header>> = Vec::new();
    let mut i: usize = 0;
    while i < args.outer_prios.len()
        invariant
            i <= args.outer_prios@.len(),
            requests@.len() == i,
            forall|j: int|
                0 <= j < i ==> frames::header_views(#[trigger] requests@[j]@) == connect_headers(
                    args.proxy_authority@,
                    args.target_ip@,
                    args.target_port@,
                    args.reliable,
                    args.outer_prios@[j]@,
                ),
        decreases args.outer_prios@.len() - i,
    {
        requests.push(connect_request(args, args.outer_prios[i].as_str()));
        i = i + 1;
    }
    requests
}

/// A tunnel that the proxy opened.
#[derive(Debug, Clone, Copy, PartialEq, Eq, Structural)]
pub struct OpenTunnel {
    pub flow_id: u64,
    /// Whether UDP payloads go as capsules on the request stream, else as datagrams.
    pub use_capsules: bool,
}

/// The tunnel that an answer on a stream opens: none unless its status is 200.
pub open spec fn opened_tunnel(headers: Seq<HeaderView>, stream_id: u64) -> Option<OpenTunnel> {
    if frames::last_value(headers, utf8::encode_utf8(":status"@)) == Some(
        utf8::encode_utf8("200"@),
    ) {
        Some(
            OpenTunnel {
                flow_id: stream_id / 4,
                use_capsules: capsules::asks_for_capsules(
                    frames::last_value(headers, utf8::encode_utf8("capsule-protocol"@)),
                ),
            },
        )
    } else {
        None
    }
}

/// Reads the answer to a request.
pub fn read_response(headers: &[Header], stream_id: u64) -> (tunnel: Option<OpenTunnel>)
    ensures
        tunnel == opened_tunnel(frames::header_views(headers@), stream_id),
{
    let status = find_header(headers, ":status");
    let capsule_protocol = find_header(headers, "capsule-protocol");
    match status {
        Some(status) => {
            if !bytes_eq(status.as_slice(), "200".as_bytes()) {
                return None;
            }
            proof {
                capsules::law_capsule_header_roundtrip(
                    capsules::asks_for_capsules(frames::opt_bytes(capsule_protocol)),
                );
            }
            let capsule_value = sfv_bool_from_header(capsule_protocol);
            Some(
                OpenTunnel {
                    flow_id: flow_id_from_stream_id(stream_id),
                    use_capsules: bytes_eq(
                        capsule_value.as_slice(),
                        sfv_bool(true).as_str().as_bytes(),
                    ),
                },
            )
        },
        None => None,
    }
}

/// The endpoint that a tunnel asks for: the one at its place, else the common one.
pub fn tunnel_endpoint(endpoints: &Vec<String>, common: &str, flow_id: u64) -> (endpoint: String)
    ensures
        endpoint@ == if flow_id < endpoints@.len() {
            endpoints@[flow_id as int]@
        } else {
            common@
        },
{
    if flow_id < endpoints.len() as u64 {
        endpoints[flow_id as usize].clone()
    } else {
        common.to_owned()
    }
}

/// Whether a frame is the last one on the stream of an answer.
pub fn is_last_body(frame: &InboundFrame) -> (last: bool)
    ensures
        last == (frame@ matches InboundFrameView::Body(_, fin) && fin),
{
    match frame {
        InboundFrame::Body(_, fin) => *fin,
        InboundFrame::Datagram(_) => false,
    }
}

proof fn lemma_names_distinct(a: Seq<char>, b: Seq<char>)
    requires
        a != b,
    ensures
        utf8::encode_utf8(a) != utf8::encode_utf8(b),
{
    utf8::encode_utf8_decode_utf8(a);
    utf8::encode_utf8_decode_utf8(b);
}

proof fn lemma_last_value(headers: Seq<HeaderView>, k: int)
    requires
        0 <= k < headers.len(),
        forall|j: int| k < j < headers.len() ==> #[trigger] headers[j].name != headers[k].name,
    ensures
        frames::last_value(headers, headers[k].name) == Some(headers[k].value),
    decreases headers.len(),
{
    if k < headers.len() - 1 {
        assert(headers.last() == headers[headers.len() - 1]);
        lemma_last_value(headers.drop_last(), k);
    }
}

/// Client and proxy agree. What the client asks for, for a target without slashes, the proxy reads
/// as a tunnel to that target; and from its answer the client learns of the same tunnel.
pub proof fn law_client_and_proxy_agree(
    authority: Seq<char>,
    ip: Seq<char>,
    port: Seq<char>,
    reliable: bool,
    prio: Seq<char>,
    stream_id: u64,
    priority: Option<Priority>,
)
    requires
        !ip.contains('/'),
        !port.contains('/'),
    ensures
        ({
            let request = proxy::request_of(connect_headers(authority, ip, port, reliable, prio));
            &&& proxy::answer_to(request, stream_id, priority) == (proxy::AnswerView::Tunnel {
                target_addr: helpers::target_addr_text(ip, port),
                response: frames::OutboundFrameView::Headers(
                    proxy::success_headers(reliable),
                    priority,
                ),
                reliable,
                flow_id: stream_id / 4,
            })
            &&& request.priority == Some(utf8::encode_utf8(prio))
            &&& opened_tunnel(proxy::success_headers(reliable), stream_id) == Some(
                OpenTunnel { flow_id: stream_id / 4, use_capsules: reliable },
            )
        }),
{
    reveal_strlit(":method");
    reveal_strlit(":protocol");
    reveal_strlit(":authority");
    reveal_strlit(":scheme");
    reveal_strlit(":path");
    reveal_strlit(":status");
    reveal_strlit("capsule-protocol");
    reveal_strlit("priority");
    let headers = connect_headers(authority, ip, port, reliable, prio);
    assert forall|i: int, j: int| 0 <= i < j < headers.len() implies #[trigger] headers[i].name
        != #[trigger] headers[j].name by {
        let names = seq![
            ":method"@,
            ":protocol"@,
            ":authority"@,
            ":scheme"@,
            ":path"@,
            "capsule-protocol"@,
            "priority"@,
        ];
        assert(names[i].len() != names[j].len() || names[i][1] != names[j][1]);
        lemma_names_distinct(names[i], names[j]);
    }
    lemma_last_value(headers, 0);
    lemma_last_value(headers, 1);
    lemma_last_value(headers, 4);
    lemma_last_value(headers, 5);
    lemma_last_value(headers, 6);
    helpers::law_masque_path_roundtrip(ip, port);
    utf8::encode_utf8_decode_utf8(ip);
    utf8::encode_utf8_decode_utf8(port);
    capsules::law_capsule_header_roundtrip(reliable);
    utf8::is_ascii_chars_encode_utf8(helpers::sfv_bool_text(reliable));
    assert(utf8::encode_utf8(helpers::sfv_bool_text(reliable)) =~= helpers::sfv_bool_bytes(
        reliable,
    ));

    let response = proxy::success_headers(reliable);
    lemma_names_distinct(":status"@, "capsule-protocol"@);
    lemma_last_value(response, 0);
    lemma_last_value(response, 1);
}

/// The idle timeout is never shorter than the command line says. It is not shorter than the probing
/// either, where extra paths are probed, and otherwise just what the command line says.
pub proof fn law_idle_timeout_outlasts_probing(args: ClientArgs)
    ensures
        idle_timeout(args) >= args.idle_timeout_secs,
        args.multipath && args.extra_addresses@.len() > 0 ==> idle_timeout(args)
            >= args.probe_timeout,
        idle_timeout(args) == args.idle_timeout_secs || idle_timeout(args) == args.probe_timeout,
        !args.multipath || args.extra_addresses@.len() == 0 || args.probe_timeout
            <= args.idle_timeout_secs ==> idle_timeout(args) == args.idle_timeout_secs,
{
}

/// An answer opens a tunnel exactly where its status is 200. The flow of the tunnel is a quarter of
/// the stream, and it takes capsules exactly where the answer says `?1`.
pub proof fn law_status_200_opens_tunnel(headers: Seq<HeaderView>, stream_id: u64)
    ensures
        opened_tunnel(headers, stream_id) is Some <==> frames::last_value(
            headers,
            utf8::encode_utf8(":status"@),
        ) == Some(seq![0x32u8, 0x30, 0x30]),
        opened_tunnel(headers, stream_id) matches Some(tunnel) ==> {
            &&& 4 * tunnel.flow_id <= stream_id < 4 * tunnel.flow_id + 4
            &&& tunnel.use_capsules <==> frames::last_value(
                headers,
                utf8::encode_utf8("capsule-protocol"@),
            ) == Some(seq![0x3fu8, 0x31])
        },
{
    reveal_strlit("200");
    utf8::is_ascii_chars_encode_utf8("200"@);
    assert(utf8::encode_utf8("200"@) =~= seq![0x32u8, 0x30, 0x30]);
    capsules::law_only_true_asks_for_capsules(
        frames::last_value(headers, utf8::encode_utf8("capsule-protocol"@)),
    );
}

/// A request for a tunnel has seven field lines, each with a name of its own: the method, the
/// protocol, the authority, the scheme, the path, whether capsules are wanted and the priority.
pub proof fn law_connect_headers(
    authority: Seq<char>,
    ip: Seq<char>,
    port: Seq<char>,
    reliable: bool,
    prio: Seq<char>,
)
    ensures
        ({
            let headers = connect_headers(authority, ip, port, reliable, prio);
            &&& headers.len() == 7
            &&& says(headers, ":method"@, "CONNECT"@)
            &&& says(headers, ":protocol"@, "connect-udp"@)
            &&& says(headers, ":authority"@, authority)
            &&& says(headers, ":scheme"@, "https"@)
            &&& says(headers, ":path"@, "/.well-known/masque/udp/"@ + ip + "/"@ + port)
            &&& says(
                headers,
                "capsule-protocol"@,
                if reliable {
                    "?1"@
                } else {
                    "?0"@
                },
            )
            &&& says(headers, "priority"@, prio)
        }),
{
    reveal_strlit(":method");
    reveal_strlit(":protocol");
    reveal_strlit(":authority");
    reveal_strlit(":scheme");
    reveal_strlit(":path");
    reveal_strlit("capsule-protocol");
    reveal_strlit("priority");
    reveal_strlit("?1");
    reveal_strlit("?0");
    let headers = connect_headers(authority, ip, port, reliable, prio);
    assert forall|i: int, j: int| 0 <= i < j < headers.len() implies #[trigger] headers[i].name
        != #[trigger] headers[j].name by {
        let names = seq![
            ":method"@,
            ":protocol"@,
            ":authority"@,
            ":scheme"@,
            ":path"@,
            "capsule-protocol"@,
            "priority"@,
        ];
        assert(names[i].len() != names[j].len() || names[i][1] != names[j][1]);
        lemma_names_distinct(names[i], names[j]);
    }
    lemma_last_value(headers, 0);
    lemma_last_value(headers, 1);
    lemma_last_value(headers, 2);
    lemma_last_value(headers, 3);
    lemma_last_value(headers, 4);
    lemma_last_value(headers, 5);
    lemma_last_value(headers, 6);
    assert(helpers::sfv_bool_text(reliable) =~= if reliable {
        "?1"@
    } else {
        "?0"@
    });
}

/// Whether field lines give this text for a name.
pub open spec fn says(headers: Seq<HeaderView>, name: Seq<char>, value: Seq<char>) -> bool {
    frames::last_value(headers, utf8::encode_utf8(name)) == Some(utf8::encode_utf8(value))
}

} // verus!
