//! The health check and the metrics document.
use vstd::prelude::*;

use crate::binary64::Binary64;
use crate::config::{
    Config, NtpSource, NtpSourceView, PeerEntry, SamplingCfg, at_least_one, source_views,
};
use crate::net::fusion::{sample_summary, window_start};
use crate::net::poller::{summary_fields, PollExtras, PollValues};
use crate::ranking::{
    all_numbers, arrange, arranged, law_permutation_is_onto, precedes, ranks, stable_order,
};
use crate::store::keys::{
    ntp_hash, ntp_hash_key, peer_hash, peer_hash_key, peer_series, peer_series_key,
};
use crate::text::{decimal, push_decimal, same_text};
use crate::time::fuse::{series_values, values_of, PeerSample};
use crate::util::{NANOS_PER_SEC, epoch_ns, wall_clock_ns};

verus! {

/// The number of points of a series that the metrics look at.
pub const METRIC_LOOKBACK_LIMIT: usize = 256;

/// Age in nanoseconds from which a fused offset is stale.
pub const STALE_AFTER_NS: u64 = 5_000_000_000;

/// The answer to a health check.
#[derive(Clone, Copy, Debug, PartialEq, Eq, Structural)]
pub enum Health {
    /// A recent fused offset is stored.
    Fresh,
    /// No recent fused offset is stored.
    Stale,
    /// The store does not answer.
    Booting,
}

/// The store could not be read.
#[derive(Clone, Copy, Debug, PartialEq, Eq, Structural)]
pub struct StoreUnavailable;

/// The key of the series whose last point decides on the health of a node.
pub fn health_key() -> (key: &'static str)
    ensures
        key@ == "ts:fused:ewma"@,
{
    "ts:fused:ewma"
}

/// See [`health`].
pub open spec fn health_spec(now_ns: u64, last: Result<Option<u64>, StoreUnavailable>) -> Health {
    match last {
        Err(_) => Health::Booting,
        Ok(None) => Health::Stale,
        Ok(Some(ts)) => if now_ns - ts < STALE_AFTER_NS {
            Health::Fresh
        } else {
            Health::Stale
        },
    }
}

/// The health of a node whose last fused offset is from the time `last`.
pub fn health(now_ns: u64, last: Result<Option<u64>, StoreUnavailable>) -> (health: Health)
    ensures
        health == health_spec(now_ns, last),
{
    match last {
        Err(_) => Health::Booting,
        Ok(None) => Health::Stale,
        Ok(Some(ts)) => if now_ns.saturating_sub(ts) < STALE_AFTER_NS {
            Health::Fresh
        } else {
            Health::Stale
        },
    }
}

impl Health {
    /// The HTTP status and body that report this health.
    pub fn reply(&self) -> (reply: (u16, &'static str))
        ensures
            reply.0 == (if *self == Health::Fresh {
                200int
            } else {
                503
            }),
            reply.1@ == (match *self {
                Health::Fresh => "ok\n"@,
                Health::Stale => "stale\n"@,
                Health::Booting => "booting\n"@,
            }),
    {
        match *self {
            Health::Fresh => (200, "ok\n"),
            Health::Stale => (503, "stale\n"),
            Health::Booting => (503, "booting\n"),
        }
    }
}

/// The wall clock in nanoseconds since the Unix epoch, or `None` where the count exceeds 64 bits.
pub fn system_time_ns() -> (ns: Option<u64>)
    ensures
        exists|t: std::time::SystemTime|
            match ns {
                Some(n) => n == #[trigger] epoch_ns(t),
                None => epoch_ns(t) > u64::MAX,
            },
        exists|t: std::time::SystemTime|
            #[trigger] call_ensures(std::time::SystemTime::now, (), t) && match ns {
                Some(n) => n == epoch_ns(t),
                None => epoch_ns(t) > u64::MAX,
            },
{
    wall_clock_ns()
}

/// The earliest time that the metrics look at.
pub fn lookback_start(sampling: &SamplingCfg, now_ns: u64) -> (since_ns: u64)
    requires
        sampling.window_sec * NANOS_PER_SEC <= u64::MAX,
    ensures
        since_ns == (if now_ns >= at_least_one(sampling.window_sec) * NANOS_PER_SEC {
            now_ns - at_least_one(sampling.window_sec) * NANOS_PER_SEC
        } else {
            0
        }),
{
    window_start(now_ns, sampling.nonzero_window_ns())
}

/// The values of a series in ascending order.
pub fn sorted_values(points: &Vec<(u64, Binary64)>) -> (sorted: Vec<Binary64>)
    ensures
        exists|order: Seq<usize>|
            #[trigger] ranks(series_values(points@), order) && sorted@ == arranged(
                series_values(points@),
                order,
            ),
{
    let values: Vec<Binary64> = values_of(points);
    let order: Vec<usize> = stable_order(&values);
    let sorted: Vec<Binary64> = arrange(&values, &order);
    assert(ranks(series_values(points@), order@));
    sorted
}

/// Where a percentile lies among ascending values.
#[derive(Clone, Copy, Debug, PartialEq, Eq, Structural)]
pub enum Percentile {
    /// Between two neighbours.
    Between(Binary64, Binary64),
    /// At the greatest value.
    Greatest(Binary64),
}

/// See [`percentile`].
pub open spec fn percentile_spec(sorted: Seq<Binary64>, index: int) -> Option<Percentile> {
    if sorted.len() == 0 {
        None
    } else if index + 1 < sorted.len() {
        Some(Percentile::Between(sorted[index], sorted[index + 1]))
    } else {
        Some(Percentile::Greatest(sorted.last()))
    }
}

/// The values between which the percentile at or behind position `index` lies.
pub fn percentile(sorted: &Vec<Binary64>, index: usize) -> (found: Option<Percentile>)
    ensures
        found == percentile_spec(sorted@, index as int),
{
    if sorted.len() == 0 {
        None
    } else if index < sorted.len() - 1 {
        Some(Percentile::Between(sorted[index], sorted[index + 1]))
    } else {
        Some(Percentile::Greatest(sorted[sorted.len() - 1]))
    }
}

/// The rendered values of a series that has points.
#[derive(Clone, Debug)]
pub struct SeriesText {
    /// The most recent value.
    pub last: String,
    /// The 50th percentile.
    pub median: String,
    /// The 95th percentile.
    pub p95: String,
}

/// The contents of a [`SeriesText`].
pub struct SeriesTextView {
    pub last: Seq<char>,
    pub median: Seq<char>,
    pub p95: Seq<char>,
}

impl View for SeriesText {
    type V = SeriesTextView;

    open spec fn view(&self) -> SeriesTextView {
        SeriesTextView { last: self.last@, median: self.median@, p95: self.p95@ }
    }
}

/// One line: a metric with labels, and its value.
pub open spec fn labelled_line(metric: Seq<char>, labels: Seq<char>, value: Seq<char>) -> Seq<char> {
    metric + "{"@ + labels + "} "@ + value + "\n"@
}

fn push_labelled_line(body: &mut String, metric: &str, labels: &str, value: &str)
    ensures
        final(body)@ == old(body)@ + labelled_line(metric@, labels@, value@),
{
    body.append(metric);
    body.append("{");
    body.append(labels);
    body.append("} ");
    body.append(value);
    body.append("\n");
    assert(body@ =~= old(body)@ + labelled_line(metric@, labels@, value@));
}

/// The lines with the percentiles of a series.
pub open spec fn quantile_lines(metric: Seq<char>, text: SeriesTextView) -> Seq<char> {
    labelled_line(metric, "quantile=\"0.50\""@, text.median) + labelled_line(
        metric,
        "quantile=\"0.95\""@,
        text.p95,
    )
}

/// Appends the percentiles of a series.
pub fn add_quantile_series(body: &mut String, metric: &str, text: &SeriesText)
    ensures
        final(body)@ == old(body)@ + quantile_lines(metric@, text@),
{
    push_labelled_line(body, metric, "quantile=\"0.50\"", text.median.as_str());
    push_labelled_line(body, metric, "quantile=\"0.95\"", text.p95.as_str());
    assert(body@ =~= old(body)@ + quantile_lines(metric@, text@));
}

/// The lines of one series; none where it has no points.
pub open spec fn series_lines(metric: Seq<char>, text: Option<SeriesTextView>) -> Seq<char> {
    match text {
        None => Seq::empty(),
        Some(t) => "# TYPE "@ + metric + " gauge\n"@ + metric + " "@ + t.last + "\n"@
            + quantile_lines(metric, t),
    }
}

/// The contents of the rendered values of a series.
pub open spec fn text_view(text: Option<SeriesText>) -> Option<SeriesTextView> {
    match text {
        Some(t) => Some(t@),
        None => None,
    }
}

fn push_series(body: &mut String, metric: &str, text: &Option<SeriesText>)
    ensures
        final(body)@ == old(body)@ + series_lines(metric@, text_view(*text)),
{
    match text {
        None => {},
        Some(t) => {
            body.append("# TYPE ");
            body.append(metric);
            body.append(" gauge\n");
            body.append(metric);
            body.append(" ");
            body.append(t.last.as_str());
            body.append("\n");
            add_quantile_series(body, metric, t);
        },
    }
    assert(body@ =~= old(body)@ + series_lines(metric@, text_view(*text)));
}

/// The rendered values of the series that concern the node as a whole; `None` where a series has
/// no points.
#[derive(Clone, Debug)]
pub struct PrimarySeries {
    /// The series `ts:fused:ewma`.
    pub fused_offset: Option<SeriesText>,
    /// The series `ts:fused:drift_ppm`.
    pub drift: Option<SeriesText>,
    /// The series `ts:phc:system_offset`.
    pub phc_system_offset: Option<SeriesText>,
    /// The series `ts:phc:fused_delta`.
    pub phc_fused_delta: Option<SeriesText>,
}

/// The keys of the series in a [`PrimarySeries`], in the order of its fields.
pub fn primary_keys() -> (keys: Vec<&'static str>)
    ensures
        keys@.map_values(|k: &'static str| k@) == seq![
            "ts:fused:ewma"@,
            "ts:fused:drift_ppm"@,
            "ts:phc:system_offset"@,
            "ts:phc:fused_delta"@,
        ],
{
    let keys: Vec<&'static str> = vec![
        "ts:fused:ewma",
        "ts:fused:drift_ppm",
        "ts:phc:system_offset",
        "ts:phc:fused_delta",
    ];
    assert(keys@.map_values(|k: &'static str| k@) =~= seq![
        "ts:fused:ewma"@,
        "ts:fused:drift_ppm"@,
        "ts:phc:system_offset"@,
        "ts:phc:fused_delta"@,
    ]);
    keys
}

impl PrimarySeries {
    /// The lines of the series that concern the node as a whole.
    pub open spec fn lines(self) -> Seq<char> {
        series_lines("zeitpeer_p2p_fused_offset_ns"@, text_view(self.fused_offset)) + series_lines(
            "zeitpeer_drift_ppm"@,
            text_view(self.drift),
        ) + series_lines(
            "zeitpeer_phc_vs_sys_offset_ns"@,
            text_view(self.phc_system_offset),
        ) + series_lines("zeitpeer_p2p_vs_phc_offset_ns"@, text_view(self.phc_fused_delta))
    }
}

/// Appends the series that concern the node as a whole.
pub fn write_primary_metrics(body: &mut String, series: &PrimarySeries)
    ensures
        final(body)@ == old(body)@ + series.lines(),
{
    push_series(body, "zeitpeer_p2p_fused_offset_ns", &series.fused_offset);
    push_series(body, "zeitpeer_drift_ppm", &series.drift);
    push_series(body, "zeitpeer_phc_vs_sys_offset_ns", &series.phc_system_offset);
    push_series(body, "zeitpeer_p2p_vs_phc_offset_ns", &series.phc_fused_delta);
    assert(body@ =~= old(body)@ + series.lines());
}

/// The characters of a text that may be missing.
pub open spec fn optional_text(text: Option<String>) -> Option<Seq<char>> {
    match text {
        Some(t) => Some(t@),
        None => None,
    }
}

/// A stored record: its fields, each with the number that its text was read as, rendered anew, or
/// `None` where the text is no number.
pub open spec fn record_view(record: Seq<(String, Option<String>)>) -> Seq<
    (Seq<char>, Option<Seq<char>>),
> {
    record.map_values(|f: (String, Option<String>)| (f.0@, optional_text(f.1)))
}

/// The number in the field `name`; `None` where there is no such field, and where its text is no
/// number.
pub open spec fn field_number(
    record: Seq<(Seq<char>, Option<Seq<char>>)>,
    name: Seq<char>,
) -> Option<Seq<char>>
    decreases record.len(),
{
    if record.len() == 0 {
        None
    } else if record[0].0 == name {
        record[0].1
    } else {
        field_number(record.skip(1), name)
    }
}

/// The number in the field `name`; `None` where there is no such field, and where its text is no
/// number.
pub fn stored_number<'a>(record: &'a Vec<(String, Option<String>)>, name: &str) -> (number: Option<
    &'a str,
>)
    ensures
        match field_number(record_view(record@), name@) {
            Some(v) => number is Some && number->Some_0@ == v,
            None => number is None,
        },
{
    let mut i: usize = 0;
    assert(record_view(record@).skip(0) =~= record_view(record@));
    while i < record.len()
        invariant
            i <= record@.len(),
            field_number(record_view(record@), name@) == field_number(
                record_view(record@).skip(i as int),
                name@,
            ),
        decreases record@.len() - i,
    {
        proof {
            let rest = record_view(record@).skip(i as int);
            assert(rest[0] == (record@[i as int].0@, optional_text(record@[i as int].1)));
            assert(rest.skip(1) =~= record_view(record@).skip(i + 1));
        }
        if same_text(record[i].0.as_str(), name) {
            return match &record[i].1 {
                Some(number) => Some(number.as_str()),
                None => None,
            };
        }
        i += 1;
    }
    None
}

/// The lines for the fields of a record that hold a number and that `table` pairs with a metric,
/// in the order of the table.
pub open spec fn record_lines(
    table: Seq<(Seq<char>, Seq<char>)>,
    labels: Seq<char>,
    record: Seq<(Seq<char>, Option<Seq<char>>)>,
) -> Seq<char>
    decreases table.len(),
{
    if table.len() == 0 {
        Seq::empty()
    } else {
        record_lines(table.drop_last(), labels, record) + match field_number(record, table.last().0) {
            Some(value) => labelled_line(table.last().1, labels, value),
            None => Seq::empty(),
        }
    }
}

/// The contents of a table of fields and metrics.
pub open spec fn table_view(table: Seq<(&'static str, &'static str)>) -> Seq<
    (Seq<char>, Seq<char>),
> {
    table.map_values(|entry: (&'static str, &'static str)| (entry.0@, entry.1@))
}

fn push_record(
    body: &mut String,
    table: &Vec<(&'static str, &'static str)>,
    labels: &str,
    record: &Vec<(String, Option<String>)>,
)
    ensures
        final(body)@ == old(body)@ + record_lines(
            table_view(table@),
            labels@,
            record_view(record@),
        ),
{
    let mut i: usize = 0;
    assert(body@ =~= old(body)@ + record_lines(
        table_view(table@).take(0),
        labels@,
        record_view(record@),
    ));
    while i < table.len()
        invariant
            i <= table@.len(),
            body@ == old(body)@ + record_lines(
                table_view(table@).take(i as int),
                labels@,
                record_view(record@),
            ),
        decreases table@.len() - i,
    {
        let ghost before = body@;
        proof {
            let next = table_view(table@).take(i + 1);
            assert(next.drop_last() =~= table_view(table@).take(i as int));
            assert(next.last() == (table@[i as int].0@, table@[i as int].1@));
        }
        let entry: (&'static str, &'static str) = table[i];
        match stored_number(record, entry.0) {
            Some(value) => {
                push_labelled_line(body, entry.1, labels, value);
            },
            None => {},
        }
        assert(body@ =~= old(body)@ + record_lines(
            table_view(table@).take(i + 1),
            labels@,
            record_view(record@),
        ));
        i += 1;
    }
    assert(table_view(table@).take(i as int) =~= table_view(table@));
}

/// The fields of a peer's summary that are reported, and their metrics.
pub open spec fn peer_table() -> Seq<(Seq<char>, Seq<char>)> {
    seq![
        ("offset_ns"@, "zeitpeer_peer_offset_ns"@),
        ("delay_ns"@, "zeitpeer_peer_delay_ns"@),
        ("jitter_ns"@, "zeitpeer_peer_jitter_ns"@),
        ("score"@, "zeitpeer_peer_score"@),
    ]
}

/// The labels of a peer's metrics.
pub open spec fn peer_labels(peer_id: u32) -> Seq<char> {
    "peer_id=\""@ + decimal(peer_id as nat) + "\""@
}

fn render_peer_labels(peer_id: u32) -> (labels: String)
    ensures
        labels@ == peer_labels(peer_id),
{
    let mut labels = String::new();
    labels.append("peer_id=\"");
    push_decimal(&mut labels, peer_id as u64);
    labels.append("\"");
    assert(labels@ =~= peer_labels(peer_id));
    labels
}

/// Appends the metrics of a peer for which its summary holds a number.
pub fn append_peer_metrics(body: &mut String, peer_id: u32, record: &Vec<(String, Option<String>)>)
    ensures
        final(body)@ == old(body)@ + record_lines(
            peer_table(),
            peer_labels(peer_id),
            record_view(record@),
        ),
{
    let mut table: Vec<(&'static str, &'static str)> = Vec::new();
    table.push(("offset_ns", "zeitpeer_peer_offset_ns"));
    table.push(("delay_ns", "zeitpeer_peer_delay_ns"));
    table.push(("jitter_ns", "zeitpeer_peer_jitter_ns"));
    table.push(("score", "zeitpeer_peer_score"));
    assert(table_view(table@) =~= peer_table());
    let labels: String = render_peer_labels(peer_id);
    push_record(body, &table, labels.as_str(), record);
}

/// The fields of an NTP source's summary that are reported, and their metrics.
pub open spec fn ntp_table() -> Seq<(Seq<char>, Seq<char>)> {
    seq![
        ("offset_ns"@, "zeitpeer_ntp_offset_ns"@),
        ("delay_ns"@, "zeitpeer_ntp_delay_ns"@),
        ("jitter_ns"@, "zeitpeer_ntp_jitter_ns"@),
        ("score"@, "zeitpeer_ntp_score"@),
        ("stratum"@, "zeitpeer_ntp_stratum"@),
        ("weight"@, "zeitpeer_ntp_weight"@),
        ("drift_ppm"@, "zeitpeer_ntp_drift_ppm"@),
        ("remote_time_s"@, "zeitpeer_ntp_remote_time_seconds"@),
        ("system_delta_s"@, "zeitpeer_ntp_remote_delta_seconds"@),
        ("ping_ms"@, "zeitpeer_ntp_ping_ms"@),
        ("offset_vs_mean_ns"@, "zeitpeer_ntp_offset_vs_mean_ns"@),
    ]
}

/// The labels of an NTP source's metrics; a source without an alias goes by its host.
pub open spec fn ntp_labels(source: NtpSourceView) -> Seq<char> {
    "ntp_id=\""@ + decimal(source.id as nat) + "\",alias=\""@ + (match source.alias {
        Some(alias) => alias,
        None => source.host,
    }) + "\""@
}

fn render_ntp_labels(source: &NtpSource) -> (labels: String)
    ensures
        labels@ == ntp_labels(source@),
{
    let mut labels = String::new();
    labels.append("ntp_id=\"");
    push_decimal(&mut labels, source.id as u64);
    labels.append("\",alias=\"");
    match &source.alias {
        Some(alias) => labels.append(alias.as_str()),
        None => labels.append(source.host.as_str()),
    }
    labels.append("\"");
    assert(labels@ =~= ntp_labels(source@));
    labels
}

/// Appends the metrics of an NTP source for which its summary holds a number.
pub fn append_ntp_metrics(body: &mut String, source: &NtpSource, record: &Vec<(String, Option<String>)>)
    ensures
        final(body)@ == old(body)@ + record_lines(
            ntp_table(),
            ntp_labels(source@),
            record_view(record@),
        ),
{
    let mut table: Vec<(&'static str, &'static str)> = Vec::new();
    table.push(("offset_ns", "zeitpeer_ntp_offset_ns"));
    table.push(("delay_ns", "zeitpeer_ntp_delay_ns"));
    table.push(("jitter_ns", "zeitpeer_ntp_jitter_ns"));
    table.push(("score", "zeitpeer_ntp_score"));
    table.push(("stratum", "zeitpeer_ntp_stratum"));
    table.push(("weight", "zeitpeer_ntp_weight"));
    table.push(("drift_ppm", "zeitpeer_ntp_drift_ppm"));
    table.push(("remote_time_s", "zeitpeer_ntp_remote_time_seconds"));
    table.push(("system_delta_s", "zeitpeer_ntp_remote_delta_seconds"));
    table.push(("ping_ms", "zeitpeer_ntp_ping_ms"));
    table.push(("offset_vs_mean_ns", "zeitpeer_ntp_offset_vs_mean_ns"));
    assert(table_view(table@) =~= ntp_table());
    let labels: String = render_ntp_labels(source);
    push_record(body, &table, labels.as_str(), record);
}

/// The key of the record with a peer's summary.
pub fn peer_summary_key(peer_id: u32) -> (key: String)
    ensures
        key@ == peer_hash(peer_id, "summary"@),
{
    peer_hash_key(peer_id, "summary")
}

/// The key of the series with a peer's timeouts.
pub fn peer_timeouts_key(peer_id: u32) -> (key: String)
    ensures
        key@ == peer_series(peer_id, "timeouts"@),
{
    peer_series_key(peer_id, "timeouts")
}

/// The key of the record with an NTP source's summary.
pub fn ntp_summary_key(source_id: u32) -> (key: String)
    ensures
        key@ == ntp_hash(source_id, "summary"@),
{
    ntp_hash_key(source_id, "summary")
}

/// What the store holds of a peer.
#[derive(Clone, Debug)]
pub struct PeerReport {
    /// The fields of the peer's summary, each with its number; empty where there is no summary.
    pub summary: Vec<(String, Option<String>)>,
    /// The most recent value of the timeouts series, rendered.
    pub timeouts: Option<String>,
}

impl PeerReport {
    /// The lines that report this of the peer `peer_id`.
    pub open spec fn lines(self, peer_id: u32) -> Seq<char> {
        record_lines(peer_table(), peer_labels(peer_id), record_view(self.summary@)) + (
        match self.timeouts {
            Some(value) => labelled_line(
                "zeitpeer_peer_timeouts_total"@,
                peer_labels(peer_id),
                value@,
            ),
            None => Seq::empty(),
        })
    }
}

/// The lines about these peers, with the report that each has.
pub open spec fn peers_lines(peers: Seq<PeerEntry>, reports: Seq<PeerReport>) -> Seq<char>
    decreases peers.len(),
{
    if peers.len() == 0 {
        Seq::empty()
    } else {
        peers_lines(peers.drop_last(), reports) + reports[peers.len() - 1].lines(peers.last().id)
    }
}

/// The lines about these NTP sources, with the record that each has.
pub open spec fn sources_lines(
    sources: Seq<NtpSourceView>,
    records: Seq<Seq<(Seq<char>, Option<Seq<char>>)>>,
) -> Seq<char>
    decreases sources.len(),
{
    if sources.len() == 0 {
        Seq::empty()
    } else {
        sources_lines(sources.drop_last(), records) + record_lines(
            ntp_table(),
            ntp_labels(sources.last()),
            records[sources.len() - 1],
        )
    }
}

/// The contents of a list of records.
pub open spec fn records_view(records: Seq<Vec<(String, Option<String>)>>) -> Seq<
    Seq<(Seq<char>, Option<Seq<char>>)>,
> {
    records.map_values(|r: Vec<(String, Option<String>)>| record_view(r@))
}

fn push_peers(body: &mut String, peers: &Vec<PeerEntry>, reports: &Vec<PeerReport>)
    requires
        reports@.len() == peers@.len(),
    ensures
        final(body)@ == old(body)@ + peers_lines(peers@, reports@),
{
    let mut i: usize = 0;
    assert(body@ =~= old(body)@ + peers_lines(peers@.take(0), reports@));
    while i < peers.len()
        invariant
            i <= peers@.len() == reports@.len(),
            body@ == old(body)@ + peers_lines(peers@.take(i as int), reports@),
        decreases peers@.len() - i,
    {
        append_peer_metrics(body, peers[i].id, &reports[i].summary);
        match &reports[i].timeouts {
            Some(value) => {
                let labels: String = render_peer_labels(peers[i].id);
                push_labelled_line(
                    body,
                    "zeitpeer_peer_timeouts_total",
                    labels.as_str(),
                    value.as_str(),
                );
            },
            None => {},
        }
        assert(peers@.take(i + 1).drop_last() =~= peers@.take(i as int));
        assert(body@ =~= old(body)@ + peers_lines(peers@.take(i + 1), reports@));
        i += 1;
    }
    assert(peers@.take(i as int) =~= peers@);
}

fn push_sources(body: &mut String, sources: &Vec<NtpSource>, records: &Vec<Vec<(String, Option<String>)>>)
    requires
        records@.len() == sources@.len(),
    ensures
        final(body)@ == old(body)@ + sources_lines(source_views(sources@), records_view(records@)),
{
    let mut i: usize = 0;
    assert(body@ =~= old(body)@ + sources_lines(
        source_views(sources@).take(0),
        records_view(records@),
    ));
    while i < sources.len()
        invariant
            i <= sources@.len() == records@.len(),
            body@ == old(body)@ + sources_lines(
                source_views(sources@).take(i as int),
                records_view(records@),
            ),
        decreases sources@.len() - i,
    {
        append_ntp_metrics(body, &sources[i], &records[i]);
        proof {
            let next = source_views(sources@).take(i + 1);
            assert(next.drop_last() =~= source_views(sources@).take(i as int));
            assert(next.last() == sources@[i as int]@);
        }
        assert(body@ =~= old(body)@ + sources_lines(
            source_views(sources@).take(i + 1),
            records_view(records@),
        ));
        i += 1;
    }
    assert(source_views(sources@).take(i as int) =~= source_views(sources@));
}

/// Appends what the store holds of the peers and of the NTP sources of a node. Reports and
/// records stand in the order of the configuration.
pub fn write_peer_metrics(
    body: &mut String,
    cfg: &Config,
    reports: &Vec<PeerReport>,
    records: &Vec<Vec<(String, Option<String>)>>,
)
    requires
        reports@.len() == cfg.peers@.len(),
        records@.len() == cfg.ntp_sources@.len(),
    ensures
        final(body)@ == old(body)@ + peers_lines(cfg.peers@, reports@) + sources_lines(
            source_views(cfg.ntp_sources@),
            records_view(records@),
        ),
{
    push_peers(body, &cfg.peers, reports);
    push_sources(body, &cfg.ntp_sources, records);
}

/// The first lines of a node's metrics.
pub open spec fn preamble(node_id: u32) -> Seq<char> {
    "# zeitpeer metrics\nzeitpeer_node_info{node_id=\""@ + decimal(node_id as nat) + "\"} 1\n"@
}

/// The metrics of a node: what concerns the node as a whole, its peers and its NTP sources.
/// Reports and records stand in the order of the configuration.
pub fn metrics(
    cfg: &Config,
    series: &PrimarySeries,
    reports: &Vec<PeerReport>,
    records: &Vec<Vec<(String, Option<String>)>>,
) -> (body: String)
    requires
        reports@.len() == cfg.peers@.len(),
        records@.len() == cfg.ntp_sources@.len(),
    ensures
        body@ == preamble(cfg.node_id) + series.lines() + peers_lines(cfg.peers@, reports@)
            + sources_lines(source_views(cfg.ntp_sources@), records_view(records@)),
{
    let mut body = String::new();
    body.append("# zeitpeer metrics\nzeitpeer_node_info{node_id=\"");
    push_decimal(&mut body, cfg.node_id as u64);
    body.append("\"} 1\n");
    assert(body@ =~= preamble(cfg.node_id));
    write_primary_metrics(&mut body, series);
    write_peer_metrics(&mut body, cfg, reports, records);
    body
}

/// A node that is healthy at some time was healthy at every earlier time at which the same offset
/// was the last one.
pub proof fn law_health_only_fades(
    earlier: u64,
    later: u64,
    last: Result<Option<u64>, StoreUnavailable>,
)
    requires
        earlier <= later,
        health_spec(later, last) == Health::Fresh,
    ensures
        health_spec(earlier, last) == Health::Fresh,
{
}

/// A percentile of numbers lies between neighbours in ascending order, or at a value that no
/// other one exceeds.
pub proof fn law_percentile_is_enclosed(
    values: Seq<Binary64>,
    order: Seq<usize>,
    index: int,
    other: usize,
)
    requires
        all_numbers(values),
        ranks(values, order),
        0 <= index,
        other < values.len(),
    ensures
        match percentile_spec(arranged(values, order), index) {
            Some(Percentile::Between(low, high)) => low.rank() <= high.rank(),
            Some(Percentile::Greatest(value)) => values[other as int].rank() <= value.rank(),
            None => false,
        },
{
    let n = values.len() as int;
    if index + 1 < n {
        assert(precedes(values, order[index], order[index + 1]));
    } else {
        law_permutation_is_onto(order, values.len(), other);
        let k = choose|k: int| 0 <= k < n && order[k] == other;
        if k < n - 1 {
            assert(precedes(values, order[k], order[n - 1]));
        }
    }
}

/// Every field that the table names and that holds a number is reported, with the metric that the
/// table pairs it with.
pub proof fn law_recorded_fields_are_reported(
    table: Seq<(Seq<char>, Seq<char>)>,
    labels: Seq<char>,
    record: Seq<(Seq<char>, Option<Seq<char>>)>,
    k: int,
)
    requires
        0 <= k < table.len(),
        field_number(record, table[k].0) is Some,
    ensures
        exists|before: Seq<char>, after: Seq<char>|
            record_lines(table, labels, record) == #[trigger] (before + labelled_line(
                table[k].1,
                labels,
                field_number(record, table[k].0)->Some_0,
            ) + after),
    decreases table.len(),
{
    let line = labelled_line(table[k].1, labels, field_number(record, table[k].0)->Some_0);
    let rest = record_lines(table.drop_last(), labels, record);
    if k == table.len() - 1 {
        assert(record_lines(table, labels, record) =~= rest + line + Seq::empty());
    } else {
        law_recorded_fields_are_reported(table.drop_last(), labels, record, k);
        let (before, after) = choose|before: Seq<char>, after: Seq<char>|
            rest == #[trigger] (before + line + after);
        let last = match field_number(record, table.last().0) {
            Some(value) => labelled_line(table.last().1, labels, value),
            None => Seq::empty(),
        };
        assert(record_lines(table, labels, record) =~= before + line + (after + last));
    }
}

/// A record adds nothing exactly where none of the fields that the table names holds a number,
/// whatever else it holds.
pub proof fn law_only_numbers_are_reported(
    table: Seq<(Seq<char>, Seq<char>)>,
    labels: Seq<char>,
    record: Seq<(Seq<char>, Option<Seq<char>>)>,
)
    ensures
        record_lines(table, labels, record) == Seq::<char>::empty() <==> forall|k: int|
            0 <= k < table.len() ==> field_number(record, (#[trigger] table[k]).0) is None,
    decreases table.len(),
{
    if table.len() > 0 {
        let rest = table.drop_last();
        law_only_numbers_are_reported(rest, labels, record);
        assert(table.last() == table[table.len() - 1]);
        if field_number(record, table.last().0) is Some {
            reveal_strlit("{");
            assert(record_lines(table, labels, record).len() > 0);
        } else {
            assert(record_lines(table, labels, record) =~= record_lines(rest, labels, record));
            assert forall|k: int| 0 <= k < rest.len() implies #[trigger] rest[k] == table[k] by {}
            if record_lines(rest, labels, record) == Seq::<char>::empty() {
                assert forall|k: int| 0 <= k < table.len() implies field_number(
                    record,
                    (#[trigger] table[k]).0,
                ) is None by {
                    if k < rest.len() {
                        assert(field_number(record, rest[k].0) is None);
                    }
                }
            } else {
                let k = choose|k: int|
                    0 <= k < rest.len() && field_number(record, (#[trigger] rest[k]).0) is Some;
                assert(field_number(record, table[k].0) is Some);
            }
        }
    }
}

/// Records that agree on the fields that the table names are reported alike.
pub proof fn law_other_fields_do_not_matter(
    table: Seq<(Seq<char>, Seq<char>)>,
    labels: Seq<char>,
    a: Seq<(Seq<char>, Option<Seq<char>>)>,
    b: Seq<(Seq<char>, Option<Seq<char>>)>,
)
    requires
        forall|k: int|
            0 <= k < table.len() ==> field_number(a, (#[trigger] table[k]).0) == field_number(
                b,
                table[k].0,
            ),
    ensures
        record_lines(table, labels, a) == record_lines(table, labels, b),
    decreases table.len(),
{
    if table.len() > 0 {
        let rest = table.drop_last();
        assert forall|k: int| 0 <= k < rest.len() implies field_number(a, (#[trigger] rest[k]).0)
            == field_number(b, rest[k].0) by {
            assert(rest[k] == table[k]);
        }
        law_other_fields_do_not_matter(rest, labels, a, b);
        assert(table.last() == table[table.len() - 1]);
    }
}

/// Whatever a poll writes to the summary of its server is reported.
pub proof fn law_poll_summaries_are_reported(values: PollValues, extras: PollExtras, i: int)
    requires
        0 <= i < summary_fields(values, extras).len(),
    ensures
        exists|k: int|
            0 <= k < ntp_table().len() && (#[trigger] ntp_table()[k]).0 == summary_fields(
                values,
                extras,
            )[i].0,
{
    let table = ntp_table();
    let place = if i < 4 {
        i
    } else if i == 4 {
        5
    } else if i == 5 {
        4
    } else if i < 9 {
        i
    } else if i == 9 && extras.offset_vs_mean is Some {
        10
    } else {
        9
    };
    assert(table[place].0 == summary_fields(values, extras)[i].0);
}

/// Whatever a round of fusion writes to the summary of a source is reported, for peers and for
/// NTP sources alike.
pub proof fn law_round_summaries_are_reported(
    cfg: Config,
    sample: PeerSample,
    score: Binary64,
    i: int,
)
    requires
        0 <= i < 4,
    ensures
        sample_summary(cfg, sample, score) is HmSet,
        sample_summary(cfg, sample, score)->fields.len() == 4,
        peer_table()[i].0 == sample_summary(cfg, sample, score)->fields[i].0,
        ntp_table()[i].0 == sample_summary(cfg, sample, score)->fields[i].0,
{
}

/// What a series of the metric `name` adds to the document, spelled out: its type, its last value
/// and its two percentiles; nothing where it has no points.
pub open spec fn spelled_series(name: Seq<char>, text: Option<SeriesText>) -> Seq<char> {
    match text {
        None => seq![],
        Some(t) => "# TYPE "@ + name + " gauge\n"@ + name + " "@ + t.last@ + "\n"@ + name
            + "{quantile=\"0.50\"} "@ + t.median@ + "\n"@ + name + "{quantile=\"0.95\"} "@ + t.p95@
            + "\n"@,
    }
}

proof fn lemma_series_are_spelled(name: Seq<char>, text: Option<SeriesText>)
    ensures
        series_lines(name, text_view(text)) == spelled_series(name, text),
{
    reveal_strlit("{");
    reveal_strlit("} ");
    reveal_strlit("quantile=\"0.50\"");
    reveal_strlit("quantile=\"0.95\"");
    reveal_strlit("{quantile=\"0.50\"} ");
    reveal_strlit("{quantile=\"0.95\"} ");
    assert("{"@ + "quantile=\"0.50\""@ + "} "@ =~= "{quantile=\"0.50\"} "@);
    assert("{"@ + "quantile=\"0.95\""@ + "} "@ =~= "{quantile=\"0.95\"} "@);
    if let Some(t) = text {
        assert(labelled_line(name, "quantile=\"0.50\""@, t.median@) =~= name
            + "{quantile=\"0.50\"} "@ + t.median@ + "\n"@);
        assert(labelled_line(name, "quantile=\"0.95\""@, t.p95@) =~= name
            + "{quantile=\"0.95\"} "@ + t.p95@ + "\n"@);
    }
    assert(series_lines(name, text_view(text)) =~= spelled_series(name, text));
}

/// Each of the four series is reported under its own metric and with its own values, in this
/// order; one without points adds nothing, whatever the others hold.
pub proof fn law_series_are_reported_under_their_metrics(series: PrimarySeries)
    ensures
        series.lines() == spelled_series("zeitpeer_p2p_fused_offset_ns"@, series.fused_offset)
            + spelled_series("zeitpeer_drift_ppm"@, series.drift) + spelled_series(
            "zeitpeer_phc_vs_sys_offset_ns"@,
            series.phc_system_offset,
        ) + spelled_series("zeitpeer_p2p_vs_phc_offset_ns"@, series.phc_fused_delta),
{
    lemma_series_are_spelled("zeitpeer_p2p_fused_offset_ns"@, series.fused_offset);
    lemma_series_are_spelled("zeitpeer_drift_ppm"@, series.drift);
    lemma_series_are_spelled("zeitpeer_phc_vs_sys_offset_ns"@, series.phc_system_offset);
    lemma_series_are_spelled("zeitpeer_p2p_vs_phc_offset_ns"@, series.phc_fused_delta);
}

/// `text` stands in `document`.
#[verifier::opaque]
pub open spec fn occurs(text: Seq<char>, document: Seq<char>) -> bool {
    exists|before: Seq<char>, after: Seq<char>|
        document == #[trigger] (before + text + after)
}

proof fn lemma_occurs(before: Seq<char>, text: Seq<char>, after: Seq<char>, document: Seq<char>)
    requires
        document =~= before + text + after,
    ensures
        occurs(text, document),
{
    reveal(occurs);
    assert(document == before + text + after);
}

/// The line of a metric without labels.
pub open spec fn plain_line(name: Seq<char>, value: Seq<char>) -> Seq<char> {
    name + " "@ + value + "\n"@
}

proof fn lemma_last_value_occurs(
    before: Seq<char>,
    name: Seq<char>,
    t: SeriesText,
    after: Seq<char>,
    document: Seq<char>,
)
    requires
        document == before + spelled_series(name, Some(t)) + after,
    ensures
        occurs(plain_line(name, t.last@), document),
{
    let head = "# TYPE "@ + name + " gauge\n"@;
    let tail = name + "{quantile=\"0.50\"} "@ + t.median@ + "\n"@ + name
        + "{quantile=\"0.95\"} "@ + t.p95@ + "\n"@;
    assert(spelled_series(name, Some(t)) =~= head + plain_line(name, t.last@) + tail);
    lemma_occurs(before + head, plain_line(name, t.last@), tail + after, document);
}

proof fn lemma_parts(
    a: Seq<char>,
    b: Seq<char>,
    c: Seq<char>,
    d: Seq<char>,
    document: Seq<char>,
)
    requires
        document == a + b + c + d,
    ensures
        document == Seq::<char>::empty() + a + (b + c + d),
        document == a + b + (c + d),
        document == (a + b) + c + d,
        document == (a + b + c) + d + Seq::<char>::empty(),
        a.len() == 0 && b.len() == 0 && c.len() == 0 && d.len() == 0 ==> document == Seq::<
            char,
        >::empty(),
{
    assert(document =~= Seq::<char>::empty() + a + (b + c + d));
    assert(document =~= a + b + (c + d));
    assert(document =~= (a + b + c) + d + Seq::<char>::empty());
    if document.len() == 0 {
        assert(document =~= Seq::<char>::empty());
    }
}

/// Where a series has points the document holds the line made of its own metric and its own last
/// value; where none has points the document holds nothing of them.
pub proof fn law_last_values_are_reported(series: PrimarySeries)
    ensures
        series.fused_offset matches Some(t) ==> occurs(
            "zeitpeer_p2p_fused_offset_ns"@ + " "@ + t.last@ + "\n"@,
            series.lines(),
        ),
        series.drift matches Some(t) ==> occurs(
            "zeitpeer_drift_ppm"@ + " "@ + t.last@ + "\n"@,
            series.lines(),
        ),
        series.phc_system_offset matches Some(t) ==> occurs(
            "zeitpeer_phc_vs_sys_offset_ns"@ + " "@ + t.last@ + "\n"@,
            series.lines(),
        ),
        series.phc_fused_delta matches Some(t) ==> occurs(
            "zeitpeer_p2p_vs_phc_offset_ns"@ + " "@ + t.last@ + "\n"@,
            series.lines(),
        ),
        series.fused_offset is None && series.drift is None && series.phc_system_offset is None
            && series.phc_fused_delta is None ==> series.lines() == Seq::<char>::empty(),
{
    law_series_are_reported_under_their_metrics(series);
    lemma_parts(
        spelled_series("zeitpeer_p2p_fused_offset_ns"@, series.fused_offset),
        spelled_series("zeitpeer_drift_ppm"@, series.drift),
        spelled_series("zeitpeer_phc_vs_sys_offset_ns"@, series.phc_system_offset),
        spelled_series("zeitpeer_p2p_vs_phc_offset_ns"@, series.phc_fused_delta),
        series.lines(),
    );
    let a = spelled_series("zeitpeer_p2p_fused_offset_ns"@, series.fused_offset);
    let b = spelled_series("zeitpeer_drift_ppm"@, series.drift);
    let c = spelled_series("zeitpeer_phc_vs_sys_offset_ns"@, series.phc_system_offset);
    let d = spelled_series("zeitpeer_p2p_vs_phc_offset_ns"@, series.phc_fused_delta);
    let none = Seq::<char>::empty();
    if let Some(t) = series.fused_offset {
        lemma_last_value_occurs(none, "zeitpeer_p2p_fused_offset_ns"@, t, b + c + d, series.lines());
    }
    if let Some(t) = series.drift {
        lemma_last_value_occurs(a, "zeitpeer_drift_ppm"@, t, c + d, series.lines());
    }
    if let Some(t) = series.phc_system_offset {
        lemma_last_value_occurs(a + b, "zeitpeer_phc_vs_sys_offset_ns"@, t, d, series.lines());
    }
    if let Some(t) = series.phc_fused_delta {
        lemma_last_value_occurs(
            a + b + c,
            "zeitpeer_p2p_vs_phc_offset_ns"@,
            t,
            none,
            series.lines(),
        );
    }
}

/// A labelled line is its metric, its labels in braces and its value; a peer is labelled with its
/// identifier, an NTP server with its identifier and its alias, or its host where it has none.
pub proof fn law_lines_name_their_source(
    metric: Seq<char>,
    labels: Seq<char>,
    value: Seq<char>,
    peer_id: u32,
    source: NtpSourceView,
)
    ensures
        labelled_line(metric, labels, value) == metric + "{"@ + labels + "} "@ + value + "\n"@,
        peer_labels(peer_id) == "peer_id=\""@ + decimal(peer_id as nat) + "\""@,
        source.alias matches Some(alias) ==> ntp_labels(source) == "ntp_id=\""@ + decimal(
            source.id as nat,
        ) + "\",alias=\""@ + alias + "\""@,
        source.alias is None ==> ntp_labels(source) == "ntp_id=\""@ + decimal(source.id as nat)
            + "\",alias=\""@ + source.host + "\""@,
{
}

/// The number of a field is that of the first entry with its name, if there is one.
pub proof fn law_fields_are_found_by_name(
    record: Seq<(Seq<char>, Option<Seq<char>>)>,
    name: Seq<char>,
    at: int,
)
    requires
        0 <= at <= record.len(),
        forall|i: int| 0 <= i < at ==> (#[trigger] record[i]).0 != name,
        at < record.len() ==> record[at].0 == name,
    ensures
        at < record.len() ==> field_number(record, name) == record[at].1,
        at == record.len() ==> field_number(record, name) is None,
    decreases record.len(),
{
    if record.len() > 0 && at > 0 {
        let rest = record.skip(1);
        assert forall|i: int| 0 <= i < at - 1 implies (#[trigger] rest[i]).0 != name by {
            assert(record[i + 1].0 != name);
        }
        assert(record[0].0 != name);
        law_fields_are_found_by_name(rest, name, at - 1);
    }
}

/// What the store holds of a peer is reported under that peer's identifier: its summary, and the
/// timeouts where they are known.
pub proof fn law_peers_are_reported_under_their_ids(
    peers: Seq<PeerEntry>,
    reports: Seq<PeerReport>,
    k: int,
)
    requires
        0 <= k < peers.len(),
    ensures
        occurs(
            record_lines(peer_table(), peer_labels(peers[k].id), record_view(reports[k].summary@)),
            peers_lines(peers, reports),
        ),
        reports[k].timeouts matches Some(value) ==> occurs(
            "zeitpeer_peer_timeouts_total"@ + "{"@ + peer_labels(peers[k].id) + "} "@ + value@
                + "\n"@,
            peers_lines(peers, reports),
        ),
    decreases peers.len(),
{
    let rest = peers_lines(peers.drop_last(), reports);
    let last = reports[peers.len() - 1].lines(peers.last().id);
    let all = peers_lines(peers, reports);
    let summary = record_lines(
        peer_table(),
        peer_labels(peers[k].id),
        record_view(reports[k].summary@),
    );
    let timeouts = match reports[k].timeouts {
        Some(value) => labelled_line(
            "zeitpeer_peer_timeouts_total"@,
            peer_labels(peers[k].id),
            value@,
        ),
        None => Seq::empty(),
    };
    if k == peers.len() - 1 {
        lemma_occurs(rest, summary, timeouts, all);
        lemma_occurs(rest + summary, timeouts, Seq::empty(), all);
    } else {
        law_peers_are_reported_under_their_ids(peers.drop_last(), reports, k);
        reveal(occurs);
        let (b, a) = choose|b: Seq<char>, a: Seq<char>| rest == #[trigger] (b + summary + a);
        lemma_occurs(b, summary, a + last, all);
        if reports[k].timeouts is Some {
            let (d, c) = choose|d: Seq<char>, c: Seq<char>| rest == #[trigger] (d + timeouts + c);
            lemma_occurs(d, timeouts, c + last, all);
        }
    }
}

/// What the store holds of an NTP server is reported under that server's labels.
pub proof fn law_servers_are_reported_under_their_labels(
    sources: Seq<NtpSourceView>,
    records: Seq<Seq<(Seq<char>, Option<Seq<char>>)>>,
    k: int,
)
    requires
        0 <= k < sources.len(),
    ensures
        occurs(
            record_lines(ntp_table(), ntp_labels(sources[k]), records[k]),
            sources_lines(sources, records),
        ),
    decreases sources.len(),
{
    let rest = sources_lines(sources.drop_last(), records);
    let last = record_lines(ntp_table(), ntp_labels(sources.last()), records[sources.len() - 1]);
    let own = record_lines(ntp_table(), ntp_labels(sources[k]), records[k]);
    let all = sources_lines(sources, records);
    if k == sources.len() - 1 {
        lemma_occurs(rest, own, Seq::empty(), all);
    } else {
        law_servers_are_reported_under_their_labels(sources.drop_last(), records, k);
        reveal(occurs);
        let (b, a) = choose|b: Seq<char>, a: Seq<char>| rest == #[trigger] (b + own + a);
        lemma_occurs(b, own, a + last, all);
    }
}

/// One more peer adds its own lines behind those of the peers before it, and nothing else; so does
/// one more NTP server.
pub proof fn law_sections_grow_at_their_end(
    peers: Seq<PeerEntry>,
    peer: PeerEntry,
    reports: Seq<PeerReport>,
    sources: Seq<NtpSourceView>,
    source: NtpSourceView,
    records: Seq<Seq<(Seq<char>, Option<Seq<char>>)>>,
)
    ensures
        peers_lines(Seq::empty(), reports) == Seq::<char>::empty(),
        peers_lines(peers.push(peer), reports) == peers_lines(peers, reports) + record_lines(
            peer_table(),
            peer_labels(peer.id),
            record_view(reports[peers.len() as int].summary@),
        ) + (match reports[peers.len() as int].timeouts {
            Some(value) => "zeitpeer_peer_timeouts_total"@ + "{"@ + peer_labels(peer.id) + "} "@
                + value@ + "\n"@,
            None => Seq::empty(),
        }),
        sources_lines(Seq::empty(), records) == Seq::<char>::empty(),
        sources_lines(sources.push(source), records) == sources_lines(sources, records)
            + record_lines(ntp_table(), ntp_labels(source), records[sources.len() as int]),
{
    assert(peers.push(peer).drop_last() =~= peers);
    assert(sources.push(source).drop_last() =~= sources);
    let report = reports[peers.len() as int];
    let timeouts = match report.timeouts {
        Some(value) => labelled_line(
            "zeitpeer_peer_timeouts_total"@,
            peer_labels(peer.id),
            value@,
        ),
        None => Seq::empty(),
    };
    assert(peers_lines(peers.push(peer), reports) =~= peers_lines(peers, reports) + record_lines(
        peer_table(),
        peer_labels(peer.id),
        record_view(report.summary@),
    ) + timeouts);
}

/// One more entry in the table adds its own line where its field holds a number, behind the lines
/// of the entries before it, and nothing otherwise.
pub proof fn law_records_are_reported_field_by_field(
    table: Seq<(Seq<char>, Seq<char>)>,
    field: Seq<char>,
    metric: Seq<char>,
    labels: Seq<char>,
    record: Seq<(Seq<char>, Option<Seq<char>>)>,
)
    ensures
        record_lines(Seq::empty(), labels, record) == Seq::<char>::empty(),
        record_lines(table.push((field, metric)), labels, record) == record_lines(
            table,
            labels,
            record,
        ) + (match field_number(record, field) {
            Some(number) => metric + "{"@ + labels + "} "@ + number + "\n"@,
            None => Seq::empty(),
        }),
{
    assert(table.push((field, metric)).drop_last() =~= table);
}

/// The document opens with the title and the node's identifier.
pub proof fn law_document_names_its_node(node_id: u32)
    ensures
        preamble(node_id) == "# zeitpeer metrics\nzeitpeer_node_info{node_id=\""@ + decimal(
            node_id as nat,
        ) + "\"} 1\n"@,
{
}

/// A node is healthy exactly as long as its last offset is less than five seconds old, whatever
/// its age is measured from; without an offset it is stale, and without a store it is booting.
pub proof fn law_health_lasts_five_seconds(now_ns: u64, ts_ns: u64)
    ensures
        health_spec(now_ns, Ok(Some(ts_ns))) == Health::Fresh <==> now_ns < ts_ns + 5_000_000_000,
        health_spec(now_ns, Ok(Some(ts_ns))) == Health::Stale <==> now_ns >= ts_ns + 5_000_000_000,
        health_spec(now_ns, Ok(None)) == Health::Stale,
        health_spec(now_ns, Err(StoreUnavailable)) == Health::Booting,
{
}

/// A percentile is found exactly where there are values: between the value at its position and the
/// next one, or from the last position on at the last value.
pub proof fn law_percentile_is_found_at_its_position(sorted: Seq<Binary64>, index: int)
    requires
        0 <= index,
    ensures
        sorted.len() == 0 <==> percentile_spec(sorted, index) is None,
        index < sorted.len() - 1 ==> percentile_spec(sorted, index) == Some(
            Percentile::Between(sorted[index], sorted[index + 1]),
        ),
        0 < sorted.len() <= index + 1 ==> percentile_spec(sorted, index) == Some(
            Percentile::Greatest(sorted[sorted.len() - 1]),
        ),
{
}

/// A record is seen whole, field by field, each with its name and its number; and so is a list of
/// records.
pub proof fn law_records_are_seen_whole(
    record: Seq<(String, Option<String>)>,
    records: Seq<Vec<(String, Option<String>)>>,
    i: int,
)
    ensures
        record_view(record).len() == record.len(),
        0 <= i < record.len() ==> record_view(record)[i].0 == record[i].0@,
        0 <= i < record.len() ==> (record[i].1 matches Some(number) ==> record_view(record)[i].1
            == Some(number@)),
        0 <= i < record.len() && record[i].1 is None ==> record_view(record)[i].1 is None,
        records_view(records).len() == records.len(),
        0 <= i < records.len() ==> records_view(records)[i] == record_view(records[i]@),
{
}

} // verus!
