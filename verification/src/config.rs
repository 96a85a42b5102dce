//! Configuration of a node.
use std::collections::HashMap;

use vstd::prelude::*;

use crate::binary64::Binary64;
use crate::util::NANOS_PER_SEC;

verus! {

/// The bit pattern of 0.15.
pub const WEIGHT_15_BITS: u64 = 0x3fc3_3333_3333_3333;

/// The bit pattern of 0.12.
pub const WEIGHT_12_BITS: u64 = 0x3fbe_b851_eb85_1eb8;

/// The bit pattern of 0.1.
pub const WEIGHT_10_BITS: u64 = 0x3fb9_9999_9999_999a;

/// The bit pattern of 0.08.
pub const WEIGHT_08_BITS: u64 = 0x3fb4_7ae1_47ae_147b;

/// A peer of this node.
#[derive(Clone, Debug)]
pub struct PeerEntry {
    pub id: u32,
    pub ip: String,
    pub port: u16,
    pub weight: Option<Binary64>,
}

/// How the node probes and how long it remembers.
#[derive(Clone, Copy, Debug, PartialEq, Eq, Structural)]
pub struct SamplingCfg {
    /// Interval between active probes (milliseconds).
    pub interval_ms: u64,
    /// Sliding window size for statistics (seconds).
    pub window_sec: u64,
    /// Number of packets in a burst per peer (optional).
    pub burst: Option<u32>,
}

/// How samples are filtered and smoothed.
#[derive(Clone, Copy, Debug, PartialEq, Eq, Structural)]
pub struct FilterCfg {
    /// EWMA smoothing factor.
    pub lambda: Binary64,
    /// Fraction to trim from each side of the sorted offsets.
    pub trim_ratio: Binary64,
    /// Keep the best fraction of peers (by delay/jitter score).
    pub best_quantile: Binary64,
    /// Minimum samples required per peer in the window.
    pub min_samples_per_peer: u32,
}

/// Whether the node may touch the system clock.
#[derive(Clone, Copy, Debug, PartialEq, Eq, Structural)]
pub struct ModeCfg {
    pub observer_only: bool,
    pub control_enable: bool,
}

/// An NTP server polled beside the peers.
#[derive(Clone, Debug)]
pub struct NtpSource {
    pub id: u32,
    pub host: String,
    pub port: Option<u16>,
    pub weight: Option<Binary64>,
    pub poll_interval_ms: Option<u64>,
    pub timeout_ms: Option<u64>,
    pub alias: Option<String>,
}

/// Configuration of a node.
#[derive(Clone, Debug)]
pub struct Config {
    pub node_id: u32,
    pub listen_addr: String,
    pub redis_url: String,
    pub phc_device: Option<String>,
    pub telemetry_addr: String,
    pub sampling: SamplingCfg,
    pub filter: FilterCfg,
    pub peers: Vec<PeerEntry>,
    pub mode: ModeCfg,
    /// Optional metadata to tag time-series data (stored alongside Redis keys).
    pub tags: HashMap<String, String>,
    pub ntp_sources: Vec<NtpSource>,
}

impl Default for ModeCfg {
    fn default() -> (mode: Self)
        ensures
            mode == (ModeCfg { observer_only: false, control_enable: false }),
    {
        ModeCfg { observer_only: false, control_enable: false }
    }
}

impl ModeCfg {
    /// Whether corrections may be applied to the system clock.
    pub fn may_control(&self) -> (allowed: bool)
        ensures
            allowed == (self.control_enable && !self.observer_only),
    {
        self.control_enable && !self.observer_only
    }
}

/// The larger of `secs` and one.
pub open spec fn at_least_one(secs: u64) -> int {
    if secs == 0 {
        1
    } else {
        secs as int
    }
}

impl SamplingCfg {
    /// Length of the statistics window in nanoseconds.
    pub fn window_ns(&self) -> (ns: u64)
        requires
            self.window_sec * NANOS_PER_SEC <= u64::MAX,
        ensures
            ns == self.window_sec * NANOS_PER_SEC,
    {
        self.window_sec * NANOS_PER_SEC
    }

    /// Length in nanoseconds of a statistics window of at least one second.
    pub fn nonzero_window_ns(&self) -> (ns: u64)
        requires
            self.window_sec * NANOS_PER_SEC <= u64::MAX,
        ensures
            ns == at_least_one(self.window_sec) * NANOS_PER_SEC,
    {
        if self.window_sec == 0 {
            NANOS_PER_SEC
        } else {
            self.window_sec * NANOS_PER_SEC
        }
    }
}

/// The contents of an [`NtpSource`].
pub struct NtpSourceView {
    pub id: u32,
    pub host: Seq<char>,
    pub port: Option<u16>,
    pub weight: Option<Binary64>,
    pub poll_interval_ms: Option<u64>,
    pub timeout_ms: Option<u64>,
    pub alias: Option<Seq<char>>,
}

impl View for NtpSource {
    type V = NtpSourceView;

    open spec fn view(&self) -> NtpSourceView {
        NtpSourceView {
            id: self.id,
            host: self.host@,
            port: self.port,
            weight: self.weight,
            poll_interval_ms: self.poll_interval_ms,
            timeout_ms: self.timeout_ms,
            alias: match self.alias {
                Some(alias) => Some(alias@),
                None => None,
            },
        }
    }
}

/// The contents of a list of sources.
pub open spec fn source_views(sources: Seq<NtpSource>) -> Seq<NtpSourceView> {
    sources.map_values(|s: NtpSource| s@)
}

/// A public server on the standard port.
pub open spec fn public_source_view(
    id: u32,
    host: Seq<char>,
    weight_bits: u64,
    poll_interval_ms: u64,
    timeout_ms: u64,
    alias: Seq<char>,
) -> NtpSourceView {
    NtpSourceView {
        id,
        host,
        port: None,
        weight: Some(Binary64 { bits: weight_bits }),
        poll_interval_ms: Some(poll_interval_ms),
        timeout_ms: Some(timeout_ms),
        alias: Some(alias),
    }
}

/// The public servers used where nothing else is configured.
pub open spec fn default_source_views() -> Seq<NtpSourceView> {
    seq![
        public_source_view(9101, "time.google.com"@, WEIGHT_15_BITS, 2_000, 1_200, "google"@),
        public_source_view(9102, "time.cloudflare.com"@, WEIGHT_10_BITS, 2_500, 1_500, "cloudflare"@),
        public_source_view(9103, "pool.ntp.org"@, WEIGHT_10_BITS, 3_000, 1_500, "pool"@),
        public_source_view(9104, "0.pool.ntp.org"@, WEIGHT_10_BITS, 3_000, 1_500, "pool-0"@),
        public_source_view(9105, "1.pool.ntp.org"@, WEIGHT_10_BITS, 3_000, 1_500, "pool-1"@),
        public_source_view(9106, "time.nist.gov"@, WEIGHT_08_BITS, 4_000, 2_000, "nist"@),
        public_source_view(9107, "time.windows.com"@, WEIGHT_08_BITS, 4_000, 2_000, "windows"@),
        public_source_view(9108, "ntp.ubuntu.com"@, WEIGHT_08_BITS, 3_500, 2_000, "ubuntu"@),
        public_source_view(9109, "time.apple.com"@, WEIGHT_08_BITS, 3_500, 2_000, "apple"@),
        public_source_view(9110, "time1.google.com"@, WEIGHT_12_BITS, 2_200, 1_200, "google-1"@),
    ]
}

fn public_source(
    id: u32,
    host: &str,
    weight_bits: u64,
    poll_interval_ms: u64,
    timeout_ms: u64,
    alias: &str,
) -> (source: NtpSource)
    ensures
        source@ == public_source_view(
            id,
            host@,
            weight_bits,
            poll_interval_ms,
            timeout_ms,
            alias@,
        ),
{
    NtpSource {
        id,
        host: host.to_string(),
        port: None,
        weight: Some(Binary64 { bits: weight_bits }),
        poll_interval_ms: Some(poll_interval_ms),
        timeout_ms: Some(timeout_ms),
        alias: Some(alias.to_string()),
    }
}

/// The public servers used where nothing else is configured.
pub fn default_ntp_sources() -> (sources: Vec<NtpSource>)
    ensures
        source_views(sources@) == default_source_views(),
{
    let mut sources: Vec<NtpSource> = Vec::new();
    sources.push(public_source(9101, "time.google.com", WEIGHT_15_BITS, 2_000, 1_200, "google"));
    sources.push(public_source(9102, "time.cloudflare.com", WEIGHT_10_BITS, 2_500, 1_500, "cloudflare"));
    sources.push(public_source(9103, "pool.ntp.org", WEIGHT_10_BITS, 3_000, 1_500, "pool"));
    sources.push(public_source(9104, "0.pool.ntp.org", WEIGHT_10_BITS, 3_000, 1_500, "pool-0"));
    sources.push(public_source(9105, "1.pool.ntp.org", WEIGHT_10_BITS, 3_000, 1_500, "pool-1"));
    sources.push(public_source(9106, "time.nist.gov", WEIGHT_08_BITS, 4_000, 2_000, "nist"));
    sources.push(public_source(9107, "time.windows.com", WEIGHT_08_BITS, 4_000, 2_000, "windows"));
    sources.push(public_source(9108, "ntp.ubuntu.com", WEIGHT_08_BITS, 3_500, 2_000, "ubuntu"));
    sources.push(public_source(9109, "time.apple.com", WEIGHT_08_BITS, 3_500, 2_000, "apple"));
    sources.push(public_source(9110, "time1.google.com", WEIGHT_12_BITS, 2_200, 1_200, "google-1"));
    assert(source_views(sources@) =~= default_source_views());
    sources
}

/// The sources that [`ensure_defaults`] leaves in a configuration with these settings.
pub open spec fn sources_after_defaults(has_phc: bool, sources: Seq<NtpSourceView>) -> Seq<
    NtpSourceView,
> {
    if !has_phc && sources.len() == 0 {
        default_source_views()
    } else {
        sources
    }
}

/// Falls back to the public servers where neither a PHC device nor an NTP source is configured,
/// and changes nothing else.
pub fn ensure_defaults(cfg: &mut Config)
    ensures
        source_views(final(cfg).ntp_sources@) == sources_after_defaults(
            old(cfg).phc_device is Some,
            source_views(old(cfg).ntp_sources@),
        ),
        old(cfg).phc_device is Some || old(cfg).ntp_sources@.len() > 0 ==> *final(cfg) == *old(
            cfg,
        ),
        *final(cfg) == (Config { ntp_sources: final(cfg).ntp_sources, ..*old(cfg) }),
{
    if cfg.phc_device.is_none() && cfg.ntp_sources.len() == 0 {
        cfg.ntp_sources = default_ntp_sources();
    }
}

/// After the defaults are applied a node has a time source, and applying them again changes
/// nothing.
pub proof fn law_defaults_give_a_source_once(has_phc: bool, sources: Seq<NtpSourceView>)
    ensures
        has_phc || sources_after_defaults(has_phc, sources).len() > 0,
        sources_after_defaults(has_phc, sources_after_defaults(has_phc, sources))
            == sources_after_defaults(has_phc, sources),
{
}

/// No two default servers share an identifier.
pub proof fn law_default_ids_are_distinct(i: int, j: int)
    requires
        0 <= i < j < default_source_views().len(),
    ensures
        default_source_views()[i].id != default_source_views()[j].id,
{
}

/// Whatever is configured stays: the public servers are taken exactly where there is neither a PHC
/// nor a single source.
pub proof fn law_configured_sources_stay(has_phc: bool, sources: Seq<NtpSourceView>)
    ensures
        has_phc ==> sources_after_defaults(has_phc, sources) == sources,
        sources.len() > 0 ==> sources_after_defaults(has_phc, sources) == sources,
        !has_phc && sources.len() == 0 ==> sources_after_defaults(has_phc, sources)
            == default_source_views(),
        default_source_views().len() == 10,
{
}

/// A window lasts as long as configured, but never less than a second.
pub proof fn law_window_lasts_a_second(secs: u64)
    ensures
        secs >= 1 ==> at_least_one(secs) == secs,
        at_least_one(0) == 1,
{
}

/// Sources are seen whole, one by one.
pub proof fn law_sources_are_seen_whole(sources: Seq<NtpSource>, i: int)
    requires
        0 <= i < sources.len(),
    ensures
        ({
            let (source, seen) = (sources[i], source_views(sources)[i]);
            &&& source_views(sources).len() == sources.len()
            &&& seen.id == source.id
            &&& seen.host == source.host@
            &&& seen.port == source.port
            &&& seen.weight == source.weight
            &&& seen.poll_interval_ms == source.poll_interval_ms
            &&& seen.timeout_ms == source.timeout_ms
            &&& source.alias matches Some(alias) ==> seen.alias == Some(alias@)
            &&& source.alias is None ==> seen.alias is None
        }),
{
}

/// The default servers go by these hosts and aliases, on the standard port.
pub proof fn law_default_servers_go_by_their_names(i: int)
    requires
        0 <= i < 10,
    ensures
        ({
            let hosts = seq![
                "time.google.com"@,
                "time.cloudflare.com"@,
                "pool.ntp.org"@,
                "0.pool.ntp.org"@,
                "1.pool.ntp.org"@,
                "time.nist.gov"@,
                "time.windows.com"@,
                "ntp.ubuntu.com"@,
                "time.apple.com"@,
                "time1.google.com"@,
            ];
            let aliases = seq![
                "google"@,
                "cloudflare"@,
                "pool"@,
                "pool-0"@,
                "pool-1"@,
                "nist"@,
                "windows"@,
                "ubuntu"@,
                "apple"@,
                "google-1"@,
            ];
            &&& default_source_views()[i].id == 9101 + i
            &&& default_source_views()[i].host == hosts[i]
            &&& default_source_views()[i].alias == Some(aliases[i])
            &&& default_source_views()[i].port is None
        }),
{
}

/// The default servers are polled at these intervals, wait this long for an answer, and weigh this
/// much.
pub proof fn law_default_servers_are_polled_in_their_measure(i: int)
    requires
        0 <= i < 10,
    ensures
        ({
            let polls: Seq<u64> = seq![
                2_000,
                2_500,
                3_000,
                3_000,
                3_000,
                4_000,
                4_000,
                3_500,
                3_500,
                2_200,
            ];
            let timeouts: Seq<u64> = seq![
                1_200,
                1_500,
                1_500,
                1_500,
                1_500,
                2_000,
                2_000,
                2_000,
                2_000,
                1_200,
            ];
            let source = default_source_views()[i];
            &&& source.poll_interval_ms == Some(polls[i])
            &&& source.timeout_ms == Some(timeouts[i])
            &&& source.weight is Some
            &&& source.weight->Some_0.bits == (if i == 0 {
                0x3fc3_3333_3333_3333u64
            } else if i < 5 {
                0x3fb9_9999_9999_999a
            } else if i < 9 {
                0x3fb4_7ae1_47ae_147b
            } else {
                0x3fbe_b851_eb85_1eb8
            })
        }),
{
}

} // verus!
