//! Reports on connections and requests, as JSON texts.

use vstd::prelude::*;

use crate::args;
use crate::text;

verus! {

/// The lines of a JSON object, each with the separator in front of it.
pub open spec fn pretty_lines(fields: Seq<(Seq<char>, nat)>) -> Seq<char>
    decreases fields.len(),
{
    if fields.len() == 0 {
        Seq::empty()
    } else {
        let separator = if fields.len() == 1 {
            "\n"@
        } else {
            ",\n"@
        };
        pretty_lines(fields.drop_last()) + separator + "  \""@ + fields.last().0 + "\": "@
            + text::decimal(fields.last().1)
    }
}

/// A JSON object, one field a line, indented by two spaces.
pub open spec fn pretty_object(fields: Seq<(Seq<char>, nat)>) -> Seq<char> {
    if fields.len() == 0 {
        "{}"@
    } else {
        "{"@ + pretty_lines(fields) + "\n}"@
    }
}

/// The fields of a list, by their views.
pub open spec fn field_views(fields: Seq<(&str, u64)>) -> Seq<(Seq<char>, nat)> {
    fields.map_values(|field: (&str, u64)| (field.0@, field.1 as nat))
}

/// Whether a name is made of small letters and underscores alone, so that JSON writes it as it is.
pub open spec fn plain_name(name: Seq<char>) -> bool {
    forall|i: int| 0 <= i < name.len() ==> 'a' <= #[trigger] name[i] <= 'z' || name[i] == '_'
}

/// Whether `a` comes before `b` in the dictionary: they agree up to some place, where `a` ends or
/// has the smaller letter.
pub open spec fn name_before(a: Seq<char>, b: Seq<char>) -> bool {
    exists|k: int|
        {
            &&& 0 <= k <= a.len() && k < b.len()
            &&& #[trigger] a.take(k) == b.take(k)
            &&& k == a.len() || a[k] < b[k]
        }
}

/// Whether every name is plain and comes before the next.
pub open spec fn names_in_order(fields: Seq<(Seq<char>, nat)>) -> bool {
    &&& forall|i: int| 0 <= i < fields.len() ==> plain_name(#[trigger] fields[i].0)
    &&& forall|i: int|
        0 <= i < fields.len() - 1 ==> name_before(#[trigger] fields[i].0, fields[i + 1].0)
}

/// `serde_json::to_string_pretty` on an object of unsigned numbers. Where the names are in order
/// and need no escape, it writes the object one field a line, in their order, and does not fail.
#[verifier::external_body]
fn to_string_pretty(fields: &Vec<(&str, u64)>) -> (json: Option<String>)
    requires
        names_in_order(field_views(fields@)),
    ensures
        json matches Some(json) && json@ == pretty_object(field_views(fields@)),
{
    let object = fields.iter().map(|(name, value)| (name.to_string(), serde_json::Value::from(*value)));
    serde_json::to_string_pretty(&serde_json::Value::Object(object.collect())).ok()
}

proof fn lemma_name_before(a: Seq<char>, b: Seq<char>, k: int)
    requires
        0 <= k <= a.len() && k < b.len(),
        a.take(k) =~= b.take(k),
        k == a.len() || a[k] < b[k],
    ensures
        name_before(a, b),
{
}

/// What was counted on an outer connection.
#[derive(Debug, Clone, Copy, PartialEq, Eq)]
pub struct ConnectionStats {
    pub recv: u64,
    pub recv_bytes: u64,
    pub sent: u64,
    pub sent_bytes: u64,
    pub lost: u64,
    pub lost_bytes: u64,
    pub retrans: u64,
    pub stream_retrans_bytes: u64,
    pub dgram_recv: u64,
    pub dgram_sent: u64,
}

/// The fields of the report on an outer connection.
pub open spec fn connection_fields(stats: ConnectionStats) -> Seq<(Seq<char>, nat)> {
    seq![
        ("dgram_recv"@, stats.dgram_recv as nat),
        ("dgram_sent"@, stats.dgram_sent as nat),
        ("lost"@, stats.lost as nat),
        ("lost_bytes"@, stats.lost_bytes as nat),
        ("recv"@, stats.recv as nat),
        ("recv_bytes"@, stats.recv_bytes as nat),
        ("retrans"@, stats.retrans as nat),
        ("sent"@, stats.sent as nat),
        ("sent_bytes"@, stats.sent_bytes as nat),
        ("stream_retrans_bytes"@, stats.stream_retrans_bytes as nat),
    ]
}

proof fn lemma_connection_fields(stats: ConnectionStats)
    ensures
        names_in_order(connection_fields(stats)),
{
    reveal_strlit("dgram_recv");
    reveal_strlit("dgram_sent");
    reveal_strlit("lost");
    reveal_strlit("lost_bytes");
    reveal_strlit("recv");
    reveal_strlit("recv_bytes");
    reveal_strlit("retrans");
    reveal_strlit("sent");
    reveal_strlit("sent_bytes");
    reveal_strlit("stream_retrans_bytes");
    lemma_name_before("dgram_recv"@, "dgram_sent"@, 6);
    lemma_name_before("dgram_sent"@, "lost"@, 0);
    lemma_name_before("lost"@, "lost_bytes"@, 4);
    lemma_name_before("lost_bytes"@, "recv"@, 0);
    lemma_name_before("recv"@, "recv_bytes"@, 4);
    lemma_name_before("recv_bytes"@, "retrans"@, 2);
    lemma_name_before("retrans"@, "sent"@, 0);
    lemma_name_before("sent"@, "sent_bytes"@, 4);
    lemma_name_before("sent_bytes"@, "stream_retrans_bytes"@, 1);
}

/// The report on an outer connection.
pub fn connection_report(stats: &ConnectionStats) -> (json: Option<String>)
    ensures
        json matches Some(json) && json@ == pretty_object(connection_fields(*stats)),
{
    let fields: Vec<(&str, u64)> = vec![
        ("dgram_recv", stats.dgram_recv),
        ("dgram_sent", stats.dgram_sent),
        ("lost", stats.lost),
        ("lost_bytes", stats.lost_bytes),
        ("recv", stats.recv),
        ("recv_bytes", stats.recv_bytes),
        ("retrans", stats.retrans),
        ("sent", stats.sent),
        ("sent_bytes", stats.sent_bytes),
        ("stream_retrans_bytes", stats.stream_retrans_bytes),
    ];
    proof {
        assert(field_views(fields@) =~= connection_fields(*stats));
        lemma_connection_fields(*stats);
    }
    to_string_pretty(&fields)
}

/// Whether an outer connection is reported on.
#[derive(Debug, PartialEq, Eq)]
pub enum ReportPlan {
    /// No report is asked for.
    Skip,
    /// A report is asked for, but there is no results directory.
    NoDirectory,
    /// The report goes to this directory.
    Write(String),
}

/// Decides whether an outer connection is reported on.
pub fn report_plan(log_stats: bool, results_dir: &Option<String>) -> (plan: ReportPlan)
    ensures
        match plan {
            ReportPlan::Skip => !log_stats,
            ReportPlan::NoDirectory => log_stats && results_dir is None,
            ReportPlan::Write(dir) => log_stats && args::opt_text(*results_dir) == Some(dir@),
        },
{
    if !log_stats {
        return ReportPlan::Skip;
    }
    match results_dir {
        Some(dir) => ReportPlan::Write(dir.clone()),
        None => ReportPlan::NoDirectory,
    }
}

/// The file that the report on an outer connection goes to.
pub fn connection_report_path(results_dir: &str, conn_id: &str) -> (path: String)
    ensures
        path@ == results_dir@ + "/outer-connection-stats-"@ + conn_id@ + ".json"@,
{
    let mut path = results_dir.to_owned();
    path.append("/outer-connection-stats-");
    path.append(conn_id);
    path.append(".json");
    path
}

/// The fields of the report on a request.
pub open spec fn timing_fields(flow_id: u64, stream_id: u64, duration_us: u64, bytes: u64) -> Seq<
    (Seq<char>, nat),
> {
    seq![
        ("bytes_received"@, bytes as nat),
        ("duration_us"@, duration_us as nat),
        ("flow_id"@, flow_id as nat),
        ("stream_id"@, stream_id as nat),
    ]
}

/// The report on a request: how long it took and how many bytes came back. A line end closes it.
pub fn timing_report(flow_id: u64, stream_id: u64, duration_us: u64, bytes: u64) -> (report: String)
    ensures
        report@ == pretty_object(timing_fields(flow_id, stream_id, duration_us, bytes)) + "\n"@,
{
    let fields: Vec<(&str, u64)> = vec![
        ("bytes_received", bytes),
        ("duration_us", duration_us),
        ("flow_id", flow_id),
        ("stream_id", stream_id),
    ];
    proof {
        assert(field_views(fields@) =~= timing_fields(flow_id, stream_id, duration_us, bytes));
        reveal_strlit("bytes_received");
        reveal_strlit("duration_us");
        reveal_strlit("flow_id");
        reveal_strlit("stream_id");
        lemma_name_before("bytes_received"@, "duration_us"@, 0);
        lemma_name_before("duration_us"@, "flow_id"@, 0);
        lemma_name_before("flow_id"@, "stream_id"@, 0);
    }
    let mut report = match to_string_pretty(&fields) {
        Some(json) => json,
        None => String::new(),
    };
    report.append("\n");
    report
}

/// A report names each count of a connection and gives it with its own name.
pub proof fn law_connection_report_names_counts(stats: ConnectionStats)
    ensures
        ({
            let fields = connection_fields(stats);
            &&& fields.len() == 10
            &&& fields.contains(("recv"@, stats.recv as nat))
            &&& fields.contains(("recv_bytes"@, stats.recv_bytes as nat))
            &&& fields.contains(("sent"@, stats.sent as nat))
            &&& fields.contains(("sent_bytes"@, stats.sent_bytes as nat))
            &&& fields.contains(("lost"@, stats.lost as nat))
            &&& fields.contains(("lost_bytes"@, stats.lost_bytes as nat))
            &&& fields.contains(("retrans"@, stats.retrans as nat))
            &&& fields.contains(("stream_retrans_bytes"@, stats.stream_retrans_bytes as nat))
            &&& fields.contains(("dgram_recv"@, stats.dgram_recv as nat))
            &&& fields.contains(("dgram_sent"@, stats.dgram_sent as nat))
        }),
{
    let fields = connection_fields(stats);
    assert(fields[0] == ("dgram_recv"@, stats.dgram_recv as nat));
    assert(fields[1] == ("dgram_sent"@, stats.dgram_sent as nat));
    assert(fields[2] == ("lost"@, stats.lost as nat));
    assert(fields[3] == ("lost_bytes"@, stats.lost_bytes as nat));
    assert(fields[4] == ("recv"@, stats.recv as nat));
    assert(fields[5] == ("recv_bytes"@, stats.recv_bytes as nat));
    assert(fields[6] == ("retrans"@, stats.retrans as nat));
    assert(fields[7] == ("sent"@, stats.sent as nat));
    assert(fields[8] == ("sent_bytes"@, stats.sent_bytes as nat));
    assert(fields[9] == ("stream_retrans_bytes"@, stats.stream_retrans_bytes as nat));
}

/// A report on a request names its flow, its stream, how long it took and how many bytes came.
pub proof fn law_timing_report_names_values(
    flow_id: u64,
    stream_id: u64,
    duration_us: u64,
    bytes: u64,
)
    ensures
        ({
            let fields = timing_fields(flow_id, stream_id, duration_us, bytes);
            &&& fields.len() == 4
            &&& fields.contains(("flow_id"@, flow_id as nat))
            &&& fields.contains(("stream_id"@, stream_id as nat))
            &&& fields.contains(("duration_us"@, duration_us as nat))
            &&& fields.contains(("bytes_received"@, bytes as nat))
        }),
{
    let fields = timing_fields(flow_id, stream_id, duration_us, bytes);
    assert(fields[0] == ("bytes_received"@, bytes as nat));
    assert(fields[1] == ("duration_us"@, duration_us as nat));
    assert(fields[2] == ("flow_id"@, flow_id as nat));
    assert(fields[3] == ("stream_id"@, stream_id as nat));
}

} // verus!
