//! The rules of the proxy: how it is set up, and how it answers a request.

use vstd::prelude::*;
use vstd::utf8;

use crate::args;
use crate::args::{initial_max_path_id, results_file, ProxyArgs};
use crate::capsules;
use crate::capsules::sfv_bool_from_header;
use crate::frames;
use crate::frames::{find_header, Header, HeaderView, OutboundFrame, OutboundFrameView};
use crate::helpers;
use crate::helpers::{dest_addr_from_masque_uri, flow_id_from_stream_id, sfv_bool, target_addr};
use crate::prios;
use crate::prios::{parse_raw_priority, parse_scheduler_hint, Priority};
use crate::scheduler::{BoxedScheduler, PacketSchedulerFactory, PacketSchedulingAlgorithm};
use crate::text;
use crate::text::{bytes_eq, clone_texts};

verus! {

/// How the proxy listens.
pub struct ProxySettings {
    /// The addresses that it listens on; the first one accepts connections.
    pub bind_addresses: Vec<String>,
    pub initial_max_path_id: Option<u64>,
    pub keylog_file: Option<String>,
    pub qlog_dir: Option<String>,
    /// The packet scheduler of its connections.
    pub scheduler: Option<BoxedScheduler>,
}

/// The scheduler that a name stands for, none where no scheduler has it.
pub open spec fn named_scheduler(name: Seq<char>) -> Option<BoxedScheduler> {
    match PacketSchedulingAlgorithm::named(name) {
        Ok(algorithm) => Some(PacketSchedulerFactory::fresh(algorithm)),
        Err(_) => None,
    }
}

fn scheduler_named(name: &str) -> (scheduler: Option<BoxedScheduler>)
    ensures
        scheduler == named_scheduler(name@),
{
    match PacketSchedulerFactory::from_name(name) {
        Ok(scheduler) => Some(scheduler),
        Err(_) => None,
    }
}

/// Sets the proxy up as its command line says.
pub fn proxy_settings(args: &ProxyArgs) -> (settings: ProxySettings)
    ensures
        text::text_views(settings.bind_addresses@) == if args.multipath {
            seq![args.common.proxy_address@] + text::text_views(args.extra_addresses@)
        } else {
            seq![args.common.proxy_address@]
        },
        match settings.initial_max_path_id {
            Some(id) => args::max_path_id(
                args.multipath,
                args.common.initial_max_path_id,
                args.extra_addresses@.len(),
            ) == Some(id as nat),
            None => !args.multipath,
        },
        args::opt_text(settings.keylog_file) == args::results_path(
            args.common.log_keys,
            args::opt_text(args.common.results_dir),
            "/ssl-proxy.key"@,
        ),
        args::opt_text(settings.qlog_dir) == if args.common.qlog {
            args::opt_text(args.common.results_dir)
        } else {
            None
        },
        settings.scheduler == if args.multipath {
            named_scheduler(args.scheduler@)
        } else {
            None
        },
{
    let mut bind_addresses: Vec<String> = Vec::new();
    bind_addresses.push(args.common.proxy_address.clone());
    assert(text::text_views(bind_addresses@) =~= seq![args.common.proxy_address@]);
    if args.multipath {
        let mut extra_addresses: Vec<String> = clone_texts(&args.extra_addresses);
        let ghost extra = extra_addresses@;
        bind_addresses.append(&mut extra_addresses);
        assert(text::text_views(bind_addresses@) =~= seq![args.common.proxy_address@]
            + text::text_views(extra));
    }
    let scheduler = if args.multipath {
        scheduler_named(args.scheduler.as_str())
    } else {
        None
    };
    let qlog_dir = if args.common.qlog {
        args.common.results_dir.clone()
    } else {
        None
    };
    ProxySettings {
        bind_addresses,
        initial_max_path_id: initial_max_path_id(
            &args.common,
            args.multipath,
            &args.extra_addresses,
        ),
        keylog_file: results_file(
            args.common.log_keys,
            &args.common.results_dir,
            "/ssl-proxy.key",
        ),
        qlog_dir,
        scheduler,
    }
}

/// The field lines of a request that the proxy looks at.
#[derive(Debug, PartialEq, Eq)]
pub struct Request {
    pub method: Option<Vec<u8>>,
    pub path: Option<Vec<u8>>,
    pub protocol: Option<Vec<u8>>,
    pub capsule_protocol: Option<Vec<u8>>,
    pub priority: Option<Vec<u8>>,
}

/// What those field lines say.
pub struct RequestView {
    pub method: Option<Seq<u8>>,
    pub path: Option<Seq<u8>>,
    pub protocol: Option<Seq<u8>>,
    pub capsule_protocol: Option<Seq<u8>>,
    pub priority: Option<Seq<u8>>,
}

impl View for Request {
    type V = RequestView;

    open spec fn view(&self) -> RequestView {
        RequestView {
            method: frames::opt_bytes(self.method),
            path: frames::opt_bytes(self.path),
            protocol: frames::opt_bytes(self.protocol),
            capsule_protocol: frames::opt_bytes(self.capsule_protocol),
            priority: frames::opt_bytes(self.priority),
        }
    }
}

/// What the field lines of a request say. The last one counts where several have one name.
pub open spec fn request_of(headers: Seq<HeaderView>) -> RequestView {
    RequestView {
        method: frames::last_value(headers, utf8::encode_utf8(":method"@)),
        path: frames::last_value(headers, utf8::encode_utf8(":path"@)),
        protocol: frames::last_value(headers, utf8::encode_utf8(":protocol"@)),
        capsule_protocol: frames::last_value(headers, utf8::encode_utf8("capsule-protocol"@)),
        priority: frames::last_value(headers, utf8::encode_utf8("priority"@)),
    }
}

impl RequestView {
    /// Whether this asks for a UDP tunnel: the CONNECT method, the connect-udp protocol and a path.
    pub open spec fn is_connect_udp(self) -> bool {
        &&& self.method == Some(utf8::encode_utf8("CONNECT"@))
        &&& self.protocol == Some(utf8::encode_utf8("connect-udp"@))
        &&& self.path is Some
    }

    /// Whether this asks for the Capsule Protocol.
    pub open spec fn reliable(self) -> bool {
        capsules::asks_for_capsules(self.capsule_protocol)
    }
}

impl Request {
    /// Reads the field lines of a request.
    pub fn from_headers(headers: &[Header]) -> (request: Self)
        ensures
            request@ == request_of(frames::header_views(headers@)),
    {
        Request {
            method: find_header(headers, ":method"),
            path: find_header(headers, ":path"),
            protocol: find_header(headers, ":protocol"),
            capsule_protocol: find_header(headers, "capsule-protocol"),
            priority: find_header(headers, "priority"),
        }
    }
}

/// The field lines of the answer to a request that opens a tunnel.
pub open spec fn success_headers(reliable: bool) -> Seq<HeaderView> {
    seq![
        frames::text_header(":status"@, "200"@),
        HeaderView {
            name: utf8::encode_utf8("capsule-protocol"@),
            value: helpers::sfv_bool_bytes(reliable),
        },
    ]
}

/// The answer to a request that opens a tunnel.
pub fn successful_response(reliable: bool, priority: Option<Priority>) -> (frame: OutboundFrame)
    ensures
        frame@ == OutboundFrameView::Headers(success_headers(reliable), priority),
{
    let headers: Vec<Header> = vec![
        Header::from_text(":status", "200"),
        Header::from_text("capsule-protocol", sfv_bool(reliable).as_str()),
    ];
    assert(frames::header_views(headers@) =~= success_headers(reliable));
    OutboundFrame::Headers(headers, priority)
}

/// How the proxy answers a request.
#[derive(Debug, PartialEq, Eq)]
pub enum Answer {
    /// The combination of :method, :path and :protocol is invalid; there is no answer.
    Invalid,
    /// The path names no target; there is no answer.
    NoTarget,
    /// A tunnel to the target is opened.
    Tunnel(TunnelAnswer),
}

/// How the proxy opens a tunnel.
#[derive(Debug, PartialEq, Eq)]
pub struct TunnelAnswer {
    /// The address that UDP payloads go to.
    pub target_addr: String,
    /// The frame that says so to the client.
    pub response: OutboundFrame,
    /// Whether UDP payloads come as capsules on the request stream, else as datagrams.
    pub reliable: bool,
    /// The datagram flow of the request.
    pub flow_id: u64,
}

/// How the proxy answers, by its view.
pub enum AnswerView {
    Invalid,
    NoTarget,
    Tunnel { target_addr: Seq<char>, response: OutboundFrameView, reliable: bool, flow_id: u64 },
}

impl View for Answer {
    type V = AnswerView;

    open spec fn view(&self) -> AnswerView {
        match self {
            Answer::Invalid => AnswerView::Invalid,
            Answer::NoTarget => AnswerView::NoTarget,
            Answer::Tunnel(tunnel) => AnswerView::Tunnel {
                target_addr: tunnel.target_addr@,
                response: tunnel.response@,
                reliable: tunnel.reliable,
                flow_id: tunnel.flow_id,
            },
        }
    }
}

/// The answer to a request on a stream, whose answer is to have this priority.
pub open spec fn answer_to(
    request: RequestView,
    stream_id: u64,
    priority: Option<Priority>,
) -> AnswerView {
    if !request.is_connect_udp() {
        AnswerView::Invalid
    } else {
        match helpers::masque_target(request.path->0) {
            Some((ip, port)) => AnswerView::Tunnel {
                target_addr: helpers::target_addr_text(
                    utf8::decode_utf8(ip),
                    utf8::decode_utf8(port),
                ),
                response: OutboundFrameView::Headers(success_headers(request.reliable()), priority),
                reliable: request.reliable(),
                flow_id: stream_id / 4,
            },
            None => AnswerView::NoTarget,
        }
    }
}

/// Answers a request on a stream, whose answer is to have this priority.
pub fn answer_request(request: Request, stream_id: u64, priority: Option<Priority>) -> (answer:
    Answer)
    ensures
        answer@ == answer_to(request@, stream_id, priority),
{
    let capsule_value = sfv_bool_from_header(request.capsule_protocol);
    let reliable: bool = bytes_eq(capsule_value.as_slice(), sfv_bool(true).as_str().as_bytes());
    proof {
        capsules::law_capsule_header_roundtrip(request@.reliable());
    }
    match (&request.method, &request.path, &request.protocol) {
        (Some(method), Some(path), Some(protocol)) => {
            if !(bytes_eq(method.as_slice(), "CONNECT".as_bytes()) && bytes_eq(
                protocol.as_slice(),
                "connect-udp".as_bytes(),
            )) {
                return Answer::Invalid;
            }
            match dest_addr_from_masque_uri(path.as_slice()) {
                Some((ip, port)) => {
                    proof {
                        utf8::encode_utf8_decode_utf8(ip@);
                        utf8::encode_utf8_decode_utf8(port@);
                    }
                    Answer::Tunnel(
                        TunnelAnswer {
                            target_addr: target_addr(ip.as_str(), port.as_str()),
                            response: successful_response(reliable, priority),
                            reliable,
                            flow_id: flow_id_from_stream_id(stream_id),
                        },
                    )
                },
                None => Answer::NoTarget,
            }
        },
        _ => Answer::Invalid,
    }
}

/// The scheduler that a hint asks for. A hint that no scheduler has the name of is ignored.
pub fn scheduler_update(hint: &Option<String>) -> (scheduler: Option<BoxedScheduler>)
    ensures
        scheduler == match hint {
            Some(name) => named_scheduler(name@),
            None => None,
        },
{
    match hint {
        Some(name) => scheduler_named(name.as_str()),
        None => None,
    }
}

/// The name of the scheduler that the priority of a request asks for.
pub open spec fn requested_name(priority: Option<Seq<u8>>) -> Option<Seq<char>> {
    match priority {
        Some(value) => prios::sched_of(prios::parsed_dictionary(value)),
        None => None,
    }
}

/// The scheduler that the priority of a request asks for.
pub open spec fn requested_scheduler(priority: Option<Seq<u8>>) -> Option<BoxedScheduler> {
    match requested_name(priority) {
        Some(name) => named_scheduler(name),
        None => None,
    }
}

/// The priority that a request asks for.
pub open spec fn requested_priority(priority: Option<Seq<u8>>) -> Priority {
    match priority {
        Some(value) => prios::priority_of(prios::parsed_dictionary(value)),
        None => Priority::spec_default(),
    }
}

/// What the proxy does about a request.
pub struct RequestPlan {
    /// The name of a scheduler that the request asks for, where it can be replaced.
    pub hint: Option<String>,
    /// The scheduler that replaces the one of the outer connection.
    pub scheduler: Option<BoxedScheduler>,
    pub answer: Answer,
}

/// Decides what to do about the field lines of a request. `can_reschedule` says whether the
/// scheduler of the outer connection can be replaced.
pub fn handle_request(headers: &[Header], stream_id: u64, can_reschedule: bool) -> (plan:
    RequestPlan)
    ensures
        ({
            let request = request_of(frames::header_views(headers@));
            &&& plan.answer@ == answer_to(
                request,
                stream_id,
                Some(requested_priority(request.priority)),
            )
            &&& args::opt_text(plan.hint) == if can_reschedule {
                requested_name(request.priority)
            } else {
                None
            }
            &&& plan.scheduler == if can_reschedule {
                requested_scheduler(request.priority)
            } else {
                None
            }
        }),
{
    let request = Request::from_headers(headers);
    let priority = parse_raw_priority(request.priority.clone());
    let hint = if can_reschedule {
        parse_scheduler_hint(request.priority.clone())
    } else {
        None
    };
    let scheduler = scheduler_update(&hint);
    RequestPlan { hint, scheduler, answer: answer_request(request, stream_id, priority) }
}

/// A request opens a tunnel where it has the CONNECT method, the connect-udp protocol and a path
/// with a target, and nowhere else.
pub proof fn law_only_connect_udp_opens_tunnels(
    request: RequestView,
    stream_id: u64,
    priority: Option<Priority>,
)
    ensures
        answer_to(request, stream_id, priority) is Tunnel <==> {
            &&& request.method == Some(utf8::encode_utf8("CONNECT"@))
            &&& request.protocol == Some(utf8::encode_utf8("connect-udp"@))
            &&& request.path matches Some(path) && helpers::masque_target(path) is Some
        },
{
}

/// A field line that is put behind others decides what is read under its own name, and leaves what
/// is read under the other names alone.
pub proof fn law_request_reads_each_header(headers: Seq<HeaderView>, header: HeaderView)
    ensures
        ({
            let before = request_of(headers);
            let after = request_of(headers.push(header));
            &&& after.method == if header.name == utf8::encode_utf8(":method"@) {
                Some(header.value)
            } else {
                before.method
            }
            &&& after.path == if header.name == utf8::encode_utf8(":path"@) {
                Some(header.value)
            } else {
                before.path
            }
            &&& after.protocol == if header.name == utf8::encode_utf8(":protocol"@) {
                Some(header.value)
            } else {
                before.protocol
            }
            &&& after.capsule_protocol == if header.name == utf8::encode_utf8("capsule-protocol"@) {
                Some(header.value)
            } else {
                before.capsule_protocol
            }
            &&& after.priority == if header.name == utf8::encode_utf8("priority"@) {
                Some(header.value)
            } else {
                before.priority
            }
        }),
        request_of(Seq::empty()) == (RequestView {
            method: None,
            path: None,
            protocol: None,
            capsule_protocol: None,
            priority: None,
        }),
{
    assert(headers.push(header).drop_last() =~= headers);
}

/// Where a tunnel is opened, it goes to the IP address and the port in the path. It takes capsules
/// exactly where the request says `?1`, and the answer says the same with a status of 200. Its flow
/// is a quarter of the stream, and its answer has the priority that was given.
pub proof fn law_tunnel_is_what_was_asked_for(
    request: RequestView,
    stream_id: u64,
    priority: Option<Priority>,
)
    ensures
        answer_to(request, stream_id, priority) matches AnswerView::Tunnel {
            target_addr,
            response,
            reliable,
            flow_id,
        } ==> {
            &&& helpers::masque_target(request.path->0) matches Some((ip, port)) && target_addr
                == "["@ + utf8::decode_utf8(ip) + "]:"@ + utf8::decode_utf8(port)
            &&& reliable <==> request.capsule_protocol == Some(seq![0x3fu8, 0x31])
            &&& 4 * flow_id <= stream_id < 4 * flow_id + 4
            &&& response matches OutboundFrameView::Headers(headers, given) && {
                &&& given == priority
                &&& headers.len() == 2
                &&& frames::last_value(headers, utf8::encode_utf8(":status"@)) == Some(
                    seq![0x32u8, 0x30, 0x30],
                )
                &&& frames::last_value(headers, utf8::encode_utf8("capsule-protocol"@)) == Some(
                    if reliable {
                        seq![0x3fu8, 0x31]
                    } else {
                        seq![0x3fu8, 0x30]
                    },
                )
            }
        },
{
    reveal_strlit("200");
    reveal_strlit(":status");
    reveal_strlit("capsule-protocol");
    utf8::is_ascii_chars_encode_utf8("200"@);
    assert(utf8::encode_utf8("200"@) =~= seq![0x32u8, 0x30, 0x30]);
    utf8::encode_utf8_decode_utf8(":status"@);
    utf8::encode_utf8_decode_utf8("capsule-protocol"@);
    capsules::law_only_true_asks_for_capsules(request.capsule_protocol);
    let headers = success_headers(request.reliable());
    frames::law_last_value_is_of_last_header(headers, utf8::encode_utf8(":status"@));
    frames::law_last_value_is_of_last_header(headers, utf8::encode_utf8("capsule-protocol"@));
    assert(headers[0].name == utf8::encode_utf8(":status"@));
    assert(headers[1].name == utf8::encode_utf8("capsule-protocol"@));
}

/// There are three answers, and they tell apart what is wrong: a request that is no CONNECT for
/// connect-udp with a path is invalid, and one whose path names no target has no target.
pub proof fn law_refused_requests(request: RequestView, stream_id: u64, priority: Option<Priority>)
    ensures
        answer_to(request, stream_id, priority) is Invalid <==> !(request.method == Some(
            utf8::encode_utf8("CONNECT"@),
        ) && request.protocol == Some(utf8::encode_utf8("connect-udp"@)) && request.path is Some),
        answer_to(request, stream_id, priority) is NoTarget <==> request.method == Some(
            utf8::encode_utf8("CONNECT"@),
        ) && request.protocol == Some(utf8::encode_utf8("connect-udp"@)) && (
        request.path matches Some(path) && helpers::masque_target(path) is None),
{
}

/// A name stands for a scheduler exactly where it stands for an algorithm, and then for one of that
/// algorithm.
pub proof fn law_named_scheduler(name: Seq<char>)
    ensures
        named_scheduler(name) is Some <==> PacketSchedulingAlgorithm::named(name) is Ok,
        named_scheduler(name) matches Some(scheduler) ==> PacketSchedulingAlgorithm::named(name)
            == Ok::<_, crate::scheduler::SchedulerError>(scheduler.of_algorithm()),
{
}

/// A request without a priority header has urgency 3, is not incremental and replaces no scheduler.
/// With one, all three follow from the dictionary in that header and from nothing else.
pub proof fn law_priority_header_decides(first: Seq<u8>, second: Seq<u8>)
    ensures
        requested_priority(None) == (Priority { urgency: 3, incremental: false }),
        requested_scheduler(None) is None,
        requested_name(None) is None,
        requested_priority(Some(first)) == prios::priority_of(prios::parsed_dictionary(first)),
        requested_name(Some(first)) == prios::sched_of(prios::parsed_dictionary(first)),
        requested_name(Some(first)) matches Some(name) ==> requested_scheduler(Some(first))
            == named_scheduler(name),
        requested_name(Some(first)) is None ==> requested_scheduler(Some(first)) is None,
        prios::parsed_dictionary(first) == prios::parsed_dictionary(second) ==> requested_priority(
            Some(first),
        ) == requested_priority(Some(second)) && requested_scheduler(Some(first))
            == requested_scheduler(Some(second)),
{
}

} // verus!
