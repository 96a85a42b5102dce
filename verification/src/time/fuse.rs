//! Fusion of many peers into one offset: robust medians, selection of the best peers, trimming
//! of outliers and smoothing.
use vstd::prelude::*;

use crate::binary64::{Binary64, ONE_BITS};
use crate::ranking::{all_numbers, arrange, arranged, ranks, stable_order};

verus! {

/// The bit pattern of 0.01, the least weight a peer can have.
pub const MIN_PEER_WEIGHT_BITS: u64 = 0x3f84_7ae1_47ae_147b;

/// The bit pattern of the gap between one and the next greater value, the least total weight.
pub const MIN_TOTAL_WEIGHT_BITS: u64 = 0x3cb0_0000_0000_0000;

/// Exponentially weighted moving average whose first value seeds the state.
#[derive(Clone, Copy, Debug)]
pub struct WeightedEwma {
    lambda: Binary64,
    state: Binary64,
    init: bool,
}

/// What the next [`WeightedEwma::push`] does with its value.
#[derive(Clone, Copy, Debug, PartialEq, Eq, Structural)]
pub enum EwmaStep {
    /// The value becomes the state.
    Seed,
    /// The value is blended with `state` at the rate `lambda`.
    Blend { lambda: Binary64, state: Binary64 },
}

/// Medians of one source over the sampling window.
#[derive(Clone, Copy, Debug, PartialEq, Eq, Structural)]
pub struct PeerSample {
    pub peer_id: u32,
    pub peer_weight: Binary64,
    pub offset_median_ns: Binary64,
    pub delay_median_ns: Binary64,
    pub jitter_median_ns: Binary64,
}

/// The fused result of the samples that survived trimming.
#[derive(Clone, Debug)]
pub struct TrimmedStats {
    pub mean_offset_ns: Binary64,
    pub mean_delay_ns: Binary64,
    pub total_weight: Binary64,
    pub kept: Vec<PeerSample>,
}

/// The middle of a ranked series.
#[derive(Clone, Copy, Debug, PartialEq, Eq, Structural)]
pub enum Median {
    /// The middle value of a series of odd length.
    One(Binary64),
    /// The two middle values of a series of even length; the median lies halfway.
    Between(Binary64, Binary64),
}

/// Medians of a source's offsets, delays and jitters; `None` for an empty series.
#[derive(Clone, Copy, Debug, PartialEq, Eq, Structural)]
pub struct SeriesMedians {
    pub offset: Option<Median>,
    pub delay: Option<Median>,
    pub jitter: Option<Median>,
}

/// Sums over the samples kept after trimming.
#[derive(Clone, Copy, Debug, PartialEq, Eq, Structural)]
pub struct FusedSums {
    /// Sum of the jitter-adjusted weights.
    pub total_weight: Binary64,
    /// Weighted means, meaningful for a positive total weight.
    pub weighted_offset_ns: Binary64,
    pub weighted_delay_ns: Binary64,
    /// Unweighted means.
    pub plain_offset_ns: Binary64,
    pub plain_delay_ns: Binary64,
}

impl WeightedEwma {
    /// The smoothing rate.
    pub closed spec fn lambda_spec(self) -> Binary64 {
        self.lambda
    }

    /// The smoothed value, once there is one.
    pub closed spec fn state_spec(self) -> Option<Binary64> {
        if self.init {
            Some(self.state)
        } else {
            None
        }
    }

    /// An average without a state, smoothing at `lambda` limited to the unit interval.
    pub fn new(lambda: Binary64) -> (ewma: Self)
        ensures
            ewma.lambda_spec() == lambda.clamp_spec(
                Binary64 { bits: 0 },
                Binary64 { bits: ONE_BITS },
            ),
            ewma.state_spec() is None,
    {
        let zero = Binary64 { bits: 0 };
        let one = Binary64 { bits: ONE_BITS };
        WeightedEwma { lambda: lambda.clamp(zero, one), state: zero, init: false }
    }

    /// What pushing the next value will do.
    pub fn next_step(&self) -> (step: EwmaStep)
        ensures
            step == (match self.state_spec() {
                None => EwmaStep::Seed,
                Some(state) => EwmaStep::Blend { lambda: self.lambda_spec(), state },
            }),
    {
        if self.init {
            EwmaStep::Blend { lambda: self.lambda, state: self.state }
        } else {
            EwmaStep::Seed
        }
    }

    /// Takes in one value and returns the new state: the value itself the first time, and
    /// `blended`, the value already blended with the current state, from then on.
    pub fn push(&mut self, value: Binary64, blended: Binary64) -> (smoothed: Binary64)
        ensures
            smoothed == (if old(self).state_spec() is None {
                value
            } else {
                blended
            }),
            final(self).state_spec() == Some(smoothed),
            final(self).lambda_spec() == old(self).lambda_spec(),
    {
        if !self.init {
            self.state = value;
            self.init = true;
        } else {
            self.state = blended;
        }
        self.state
    }
}

impl Default for WeightedEwma {
    fn default() -> (ewma: Self)
        ensures
            ewma.lambda_spec() == (Binary64 { bits: 0 }),
            ewma.state_spec() is None,
    {
        let zero = Binary64 { bits: 0 };
        WeightedEwma { lambda: zero, state: zero, init: false }
    }
}

/// The values of a series without their timestamps.
pub open spec fn series_values(series: Seq<(u64, Binary64)>) -> Seq<Binary64> {
    series.map_values(|point: (u64, Binary64)| point.1)
}

/// The values of a series without their timestamps.
pub fn values_of(series: &Vec<(u64, Binary64)>) -> (values: Vec<Binary64>)
    ensures
        values@ == series_values(series@),
{
    let mut values: Vec<Binary64> = Vec::new();
    let mut i: usize = 0;
    while i < series.len()
        invariant
            i <= series@.len(),
            values@ == series_values(series@.take(i as int)),
        decreases series@.len() - i,
    {
        values.push(series[i].1);
        assert(values@ =~= series_values(series@.take(i + 1)));
        i += 1;
    }
    assert(series@.take(i as int) =~= series@);
    values
}

/// The middle of a nonempty ranked series.
pub open spec fn middle(ranked: Seq<Binary64>) -> Median {
    let mid = ranked.len() as int / 2;
    if ranked.len() % 2 == 0 {
        Median::Between(ranked[mid - 1], ranked[mid])
    } else {
        Median::One(ranked[mid])
    }
}

/// `median` is the middle of `values` in numeric order, `None` if there are none.
pub open spec fn is_median(values: Seq<Binary64>, median: Option<Median>) -> bool {
    match median {
        None => values.len() == 0,
        Some(m) => values.len() > 0 && exists|order: Seq<usize>| #[trigger]
            ranks(values, order) && m == middle(arranged(values, order)),
    }
}

/// The middle of `values` in numeric order.
pub fn robust_median(values: &Vec<Binary64>) -> (median: Option<Median>)
    ensures
        is_median(values@, median),
{
    if values.len() == 0 {
        return None;
    }
    let order: Vec<usize> = stable_order(values);
    let sorted: Vec<Binary64> = arrange(values, &order);
    let mid: usize = sorted.len() / 2;
    let median = if sorted.len() % 2 == 0 {
        Median::Between(sorted[mid - 1], sorted[mid])
    } else {
        Median::One(sorted[mid])
    };
    assert(ranks(values@, order@) && median == middle(arranged(values@, order@)));
    Some(median)
}

/// The medians of a source's three series.
pub fn series_medians(
    offsets: &Vec<(u64, Binary64)>,
    delays: &Vec<(u64, Binary64)>,
    jitters: &Vec<(u64, Binary64)>,
) -> (medians: SeriesMedians)
    ensures
        is_median(series_values(offsets@), medians.offset),
        is_median(series_values(delays@), medians.delay),
        is_median(series_values(jitters@), medians.jitter),
{
    let offset_vals: Vec<Binary64> = values_of(offsets);
    let delay_vals: Vec<Binary64> = values_of(delays);
    let jitter_vals: Vec<Binary64> = values_of(jitters);
    SeriesMedians {
        offset: robust_median(&offset_vals),
        delay: robust_median(&delay_vals),
        jitter: robust_median(&jitter_vals),
    }
}

/// The value, or zero where there is none.
pub open spec fn or_zero(value: Option<Binary64>) -> Binary64 {
    match value {
        Some(v) => v,
        None => Binary64 { bits: 0 },
    }
}

impl PeerSample {
    /// A source's sample from its weight and the medians of its series. The weight is raised to
    /// its minimum, a missing median counts as zero and jitter loses its sign.
    pub fn from_series(
        peer_id: u32,
        weight: Binary64,
        offset_median: Option<Binary64>,
        delay_median: Option<Binary64>,
        jitter_median: Option<Binary64>,
    ) -> (sample: Self)
        ensures
            sample.peer_id == peer_id,
            sample.peer_weight == weight.at_least_spec(Binary64 { bits: MIN_PEER_WEIGHT_BITS }),
            sample.offset_median_ns == or_zero(offset_median),
            sample.delay_median_ns == or_zero(delay_median),
            sample.jitter_median_ns.bits == or_zero(jitter_median).magnitude(),
    {
        let zero = Binary64 { bits: 0 };
        PeerSample {
            peer_id,
            peer_weight: weight.at_least(Binary64 { bits: MIN_PEER_WEIGHT_BITS }),
            offset_median_ns: offset_median.unwrap_or(zero),
            delay_median_ns: delay_median.unwrap_or(zero),
            jitter_median_ns: jitter_median.unwrap_or(zero).abs(),
        }
    }
}

/// The offset medians of `samples`.
pub open spec fn offset_medians(samples: Seq<PeerSample>) -> Seq<Binary64> {
    samples.map_values(|s: PeerSample| s.offset_median_ns)
}

/// How many of `n` peers stay when `keep` are asked for: at least one, at most all.
pub open spec fn kept_count(n: nat, keep: nat) -> nat {
    let wanted = if keep == 0 { 1 } else { keep };
    if wanted < n {
        wanted
    } else {
        n
    }
}

/// `best` holds the `keep` samples with the lowest scores, lowest first.
pub open spec fn is_best_selection(
    samples: Seq<PeerSample>,
    scores: Seq<Binary64>,
    keep: nat,
    best: Seq<PeerSample>,
) -> bool {
    exists|order: Seq<usize>| #[trigger]
        ranks(scores, order) && best == arranged(samples, order).take(
            kept_count(samples.len(), keep) as int,
        )
}

/// The `keep` samples with the lowest scores (at least one, where there is any), lowest first.
/// `scores` holds the score of each sample.
pub fn select_best_peers(samples: &Vec<PeerSample>, scores: &Vec<Binary64>, keep: usize) -> (best:
    Vec<PeerSample>)
    requires
        scores@.len() == samples@.len(),
    ensures
        is_best_selection(samples@, scores@, keep as nat, best@),
{
    let order: Vec<usize> = stable_order(scores);
    let mut best: Vec<PeerSample> = arrange(samples, &order);
    let wanted: usize = if keep == 0 { 1 } else { keep };
    best.truncate(wanted);
    proof {
        let all = arranged(samples@, order@);
        assert(best@ =~= all.take(kept_count(samples@.len(), keep as nat) as int));
    }
    best
}

/// How many of `n` peers stay when `keep` are asked for.
pub fn selected_count(n: usize, keep: usize) -> (count: usize)
    ensures
        count == kept_count(n as nat, keep as nat),
{
    let wanted: usize = if keep == 0 { 1 } else { keep };
    if wanted < n {
        wanted
    } else {
        n
    }
}

/// Where the kept range ends when `trim` of `n` samples go from each side: one sample always
/// stays.
pub open spec fn trim_end(n: int, trim: int) -> int {
    if n - trim > trim {
        n - trim
    } else {
        trim + 1
    }
}

/// `kept` is what remains of `samples`, ranked by offset, without `trim` on either side.
pub open spec fn is_trimmed(samples: Seq<PeerSample>, trim: int, kept: Seq<PeerSample>) -> bool {
    exists|order: Seq<usize>| #[trigger]
        ranks(offset_medians(samples), order) && kept == arranged(samples, order).subrange(
            trim,
            trim_end(samples.len() as int, trim),
        )
}

/// `kept` is what remains of `samples` when the `keep` with the lowest scores are selected and
/// those are trimmed by `trim` on either side.
pub open spec fn is_selected_and_trimmed(
    samples: Seq<PeerSample>,
    scores: Seq<Binary64>,
    keep: nat,
    trim: int,
    kept: Seq<PeerSample>,
) -> bool {
    exists|best: Seq<PeerSample>| #[trigger]
        is_best_selection(samples, scores, keep, best) && is_trimmed(best, trim, kept)
}

/// Selects the `keep` samples with the lowest scores and trims those by `trim` on either side.
pub fn select_and_trim(
    samples: &Vec<PeerSample>,
    scores: &Vec<Binary64>,
    keep: usize,
    trim: usize,
) -> (kept: Vec<PeerSample>)
    requires
        scores@.len() == samples@.len(),
        trim < kept_count(samples@.len(), keep as nat),
    ensures
        is_selected_and_trimmed(samples@, scores@, keep as nat, trim as int, kept@),
        kept@.len() == trim_end(kept_count(samples@.len(), keep as nat) as int, trim as int) - trim,
{
    let best: Vec<PeerSample> = select_best_peers(samples, scores, keep);
    TrimmedStats::trim_samples(&best, trim)
}

impl TrimmedStats {
    /// Ranks the samples by offset and drops the `trim` lowest and the `trim` highest, but keeps
    /// at least one.
    pub fn trim_samples(samples: &Vec<PeerSample>, trim: usize) -> (kept: Vec<PeerSample>)
        requires
            trim < samples@.len(),
        ensures
            is_trimmed(samples@, trim as int, kept@),
    {
        let mut keys: Vec<Binary64> = Vec::new();
        let mut i: usize = 0;
        while i < samples.len()
            invariant
                i <= samples@.len(),
                keys@ == offset_medians(samples@.take(i as int)),
            decreases samples@.len() - i,
        {
            keys.push(samples[i].offset_median_ns);
            assert(keys@ =~= offset_medians(samples@.take(i + 1)));
            i += 1;
        }
        assert(samples@.take(i as int) =~= samples@);
        let order: Vec<usize> = stable_order(&keys);
        let subset: Vec<PeerSample> = arrange(samples, &order);
        let n: usize = subset.len();
        let end: usize = if n - trim > trim { n - trim } else { trim + 1 };
        let mut kept: Vec<PeerSample> = Vec::new();
        let mut k: usize = trim;
        while k < end
            invariant
                trim <= k <= end <= subset@.len(),
                kept@ == subset@.subrange(trim as int, k as int),
            decreases end - k,
        {
            kept.push(subset[k]);
            assert(kept@ =~= subset@.subrange(trim as int, k + 1));
            k += 1;
        }
        assert(ranks(offset_medians(samples@), order@) && kept@ == arranged(
            samples@,
            order@,
        ).subrange(trim as int, trim_end(samples@.len() as int, trim as int)));
        kept
    }

    /// The fused result over the samples kept after trimming: weighted means where the total
    /// weight is positive, plain means otherwise.
    pub fn from_samples(kept: Vec<PeerSample>, sums: &FusedSums) -> (stats: Self)
        ensures
            stats.kept == kept,
            stats.total_weight == sums.total_weight.at_least_spec(
                Binary64 { bits: MIN_TOTAL_WEIGHT_BITS },
            ),
            (Binary64 { bits: 0 }).below_spec(sums.total_weight) ==> stats.mean_offset_ns
                == sums.weighted_offset_ns && stats.mean_delay_ns == sums.weighted_delay_ns,
            !(Binary64 { bits: 0 }).below_spec(sums.total_weight) ==> stats.mean_offset_ns
                == sums.plain_offset_ns && stats.mean_delay_ns == sums.plain_delay_ns,
    {
        let zero = Binary64 { bits: 0 };
        let floor = Binary64 { bits: MIN_TOTAL_WEIGHT_BITS };
        let weighted: bool = zero.below(&sums.total_weight);
        TrimmedStats {
            mean_offset_ns: if weighted { sums.weighted_offset_ns } else { sums.plain_offset_ns },
            mean_delay_ns: if weighted { sums.weighted_delay_ns } else { sums.plain_delay_ns },
            total_weight: sums.total_weight.at_least(floor),
            kept,
        }
    }

    /// Whether no sample was kept.
    pub fn is_empty(&self) -> (empty: bool)
        ensures
            empty == (self.kept@.len() == 0),
    {
        self.kept.len() == 0
    }

    /// The fused result itself.
    pub fn weighted_mean(&self) -> (stats: &Self)
        ensures
            stats == self,
    {
        self
    }
}

/// The indices in `chosen` are distinct and lie below `n`.
pub open spec fn distinct_indices(chosen: Seq<usize>, n: nat) -> bool {
    &&& forall|i: int| 0 <= i < chosen.len() ==> #[trigger] chosen[i] < n
    &&& forall|i: int, j: int|
        0 <= i < j < chosen.len() ==> #[trigger] chosen[i] != #[trigger] chosen[j]
}

/// At most `m` of the keys rank below `low`.
pub open spec fn at_most_below(keys: Seq<Binary64>, low: int, m: int) -> bool {
    forall|bad: Seq<usize>| #[trigger]
        distinct_indices(bad, keys.len()) && (forall|i: int|
            0 <= i < bad.len() ==> keys[#[trigger] bad[i] as int].rank() < low) ==> bad.len() <= m
}

/// At most `m` of the keys rank above `high`.
pub open spec fn at_most_above(keys: Seq<Binary64>, high: int, m: int) -> bool {
    forall|bad: Seq<usize>| #[trigger]
        distinct_indices(bad, keys.len()) && (forall|i: int|
            0 <= i < bad.len() ==> keys[#[trigger] bad[i] as int].rank() > high) ==> bad.len() <= m
}

/// With at most `m` outliers on either side, what stands at least `m` places from both ends of a
/// ranking is no outlier.
proof fn lemma_inner_places_are_no_outliers(
    keys: Seq<Binary64>,
    order: Seq<usize>,
    m: int,
    low: int,
    high: int,
    place: int,
)
    requires
        all_numbers(keys),
        ranks(keys, order),
        0 <= m <= place < keys.len() - m,
        at_most_below(keys, low, m),
        at_most_above(keys, high, m),
    ensures
        low <= keys[order[place] as int].rank() <= high,
{
    let key = keys[order[place] as int];
    if key.rank() < low {
        let bad = order.take(place + 1);
        assert(distinct_indices(bad, keys.len())) by {
            assert forall|i: int, j: int| 0 <= i < j < bad.len() implies #[trigger] bad[i]
                != #[trigger] bad[j] by {
                assert(order[i] != order[j]);
            }
            assert forall|i: int| 0 <= i < bad.len() implies #[trigger] bad[i] < keys.len() by {
                assert(order[i] < keys.len());
            }
        }
        assert forall|i: int| 0 <= i < bad.len() implies keys[#[trigger] bad[i] as int].rank()
            < low by {
            assert(bad[i] == order[i]);
            if i < place {
                assert(crate::ranking::precedes(keys, order[i], order[place]));
            }
        }
        assert(bad.len() <= m);
    }
    if key.rank() > high {
        let bad = order.skip(place);
        assert(distinct_indices(bad, keys.len())) by {
            assert forall|i: int, j: int| 0 <= i < j < bad.len() implies #[trigger] bad[i]
                != #[trigger] bad[j] by {
                assert(order[i + place] != order[j + place]);
            }
            assert forall|i: int| 0 <= i < bad.len() implies #[trigger] bad[i] < keys.len() by {
                assert(order[i + place] < keys.len());
            }
        }
        assert forall|i: int| 0 <= i < bad.len() implies keys[#[trigger] bad[i] as int].rank()
            > high by {
            assert(bad[i] == order[i + place]);
            if i > 0 {
                assert(crate::ranking::precedes(keys, order[place], order[i + place]));
            }
        }
        assert(bad.len() <= m);
    }
}

/// The median is robust: as long as fewer than half of the values lie below `low` and fewer than
/// half above `high`, the values it is made of lie between the two.
pub proof fn law_median_resists_outliers(
    values: Seq<Binary64>,
    median: Median,
    low: int,
    high: int,
)
    requires
        all_numbers(values),
        is_median(values, Some(median)),
        at_most_below(values, low, (values.len() - 1) / 2),
        at_most_above(values, high, (values.len() - 1) / 2),
    ensures
        match median {
            Median::One(v) => low <= v.rank() <= high,
            Median::Between(a, b) => low <= a.rank() <= b.rank() <= high,
        },
{
    let order = choose|order: Seq<usize>| #[trigger]
        ranks(values, order) && median == middle(arranged(values, order));
    let n = values.len() as int;
    let m = (n - 1) / 2;
    let mid = n / 2;
    lemma_inner_places_are_no_outliers(values, order, m, low, high, mid);
    if n % 2 == 0 {
        lemma_inner_places_are_no_outliers(values, order, m, low, high, mid - 1);
        assert(crate::ranking::precedes(values, order[mid - 1], order[mid]));
    }
}

/// Selection keeps at least one peer and never prefers a higher score: every peer that was not
/// selected scores at least as high as every peer that was.
pub proof fn law_selection_keeps_the_best(
    samples: Seq<PeerSample>,
    scores: Seq<Binary64>,
    keep: nat,
    best: Seq<PeerSample>,
)
    requires
        samples.len() > 0,
        scores.len() == samples.len(),
        all_numbers(scores),
        is_best_selection(samples, scores, keep, best),
    ensures
        1 <= best.len() <= samples.len(),
        best.len() == kept_count(samples.len(), keep),
        exists|chosen: Seq<usize>|
            {
                &&& #[trigger] distinct_indices(chosen, samples.len())
                &&& best == arranged(samples, chosen)
                &&& forall|i: usize, k: int|
                    i < samples.len() && 0 <= k < chosen.len() && !chosen.contains(i)
                        ==> scores[(#[trigger] chosen[k]) as int].rank() <= (
                    #[trigger] scores[i as int]).rank()
            },
{
    let order = choose|order: Seq<usize>| #[trigger]
        ranks(scores, order) && best == arranged(samples, order).take(
            kept_count(samples.len(), keep) as int,
        );
    let chosen = order.take(best.len() as int);
    assert(distinct_indices(chosen, samples.len())) by {
        assert forall|i: int, j: int| 0 <= i < j < chosen.len() implies #[trigger] chosen[i]
            != #[trigger] chosen[j] by {
            assert(order[i] != order[j]);
        }
        assert forall|i: int| 0 <= i < chosen.len() implies #[trigger] chosen[i]
            < samples.len() by {
            assert(order[i] < scores.len());
        }
    }
    assert(best =~= arranged(samples, chosen));
    assert forall|i: usize, k: int|
        i < samples.len() && 0 <= k < chosen.len() && !chosen.contains(i) implies scores[(
    #[trigger] chosen[k]) as int].rank() <= (#[trigger] scores[i as int]).rank() by {
        crate::ranking::law_permutation_is_onto(order, samples.len(), i);
        let place = choose|place: int| 0 <= place < samples.len() && order[place] == i;
        if place < chosen.len() {
            assert(chosen[place] == i);
        }
        assert(crate::ranking::precedes(scores, order[k], order[place]));
    }
}

/// Trimming is robust: with at most `trim` offsets below `low` and at most `trim` above `high`,
/// every offset that is kept lies between the two; and `trim` is dropped on either side.
pub proof fn law_trimming_drops_outliers(
    samples: Seq<PeerSample>,
    trim: int,
    kept: Seq<PeerSample>,
    low: int,
    high: int,
)
    requires
        0 <= trim,
        2 * trim < samples.len(),
        all_numbers(offset_medians(samples)),
        is_trimmed(samples, trim, kept),
        at_most_below(offset_medians(samples), low, trim),
        at_most_above(offset_medians(samples), high, trim),
    ensures
        kept.len() == samples.len() - 2 * trim,
        forall|k: int|
            0 <= k < kept.len() ==> low <= (#[trigger] kept[k]).offset_median_ns.rank() <= high,
{
    let keys = offset_medians(samples);
    let order = choose|order: Seq<usize>| #[trigger]
        ranks(keys, order) && kept == arranged(samples, order).subrange(
            trim,
            trim_end(samples.len() as int, trim),
        );
    assert forall|k: int| 0 <= k < kept.len() implies low <= (
    #[trigger] kept[k]).offset_median_ns.rank() <= high by {
        lemma_inner_places_are_no_outliers(keys, order, trim, low, high, trim + k);
        assert(order[trim + k] < samples.len());
        assert(kept[k] == samples[order[trim + k] as int]);
    }
}

/// Trimming never drops everything: where the two trimmed ends would meet, exactly one sample
/// stays.
pub proof fn law_trimming_keeps_one(samples: Seq<PeerSample>, trim: int, kept: Seq<PeerSample>)
    requires
        0 <= trim < samples.len(),
        2 * trim >= samples.len(),
        is_trimmed(samples, trim, kept),
    ensures
        kept.len() == 1,
{
}

/// The median stands in the middle of the values in ascending order: as many values stand before
/// it as behind it, whether it is one value or lies between two.
pub proof fn law_median_stands_in_the_middle(
    values: Seq<Binary64>,
    order: Seq<usize>,
    median: Option<Median>,
)
    requires
        all_numbers(values),
        ranks(values, order),
        is_median(values, median),
    ensures
        values.len() == 0 <==> median is None,
        median matches Some(Median::One(v)) ==> values.len() % 2 == 1 && v == values[order[(
        values.len() - 1) / 2] as int],
        median matches Some(Median::Between(a, b)) ==> values.len() % 2 == 0 && a == values[order[
            values.len() / 2 - 1
        ] as int] && b == values[order[values.len() as int / 2] as int],
{
    if let Some(m) = median {
        let chosen = choose|chosen: Seq<usize>| #[trigger]
            ranks(values, chosen) && m == middle(arranged(values, chosen));
        crate::ranking::law_ranking_is_unique(values, chosen, order);
    }
}

/// The values of a series are its values, one by one and in their order; so are the offsets of
/// samples.
pub proof fn law_values_are_taken_in_order(
    series: Seq<(u64, Binary64)>,
    samples: Seq<PeerSample>,
    i: int,
)
    ensures
        series_values(series).len() == series.len(),
        0 <= i < series.len() ==> series_values(series)[i] == series[i].1,
        offset_medians(samples).len() == samples.len(),
        0 <= i < samples.len() ==> offset_medians(samples)[i] == samples[i].offset_median_ns,
{
}

/// Selection returns as many samples as asked for, at least one and at most all, and returns them
/// by rising score, samples of equal score in their order.
pub proof fn law_selection_is_by_rising_score(
    samples: Seq<PeerSample>,
    scores: Seq<Binary64>,
    order: Seq<usize>,
    keep: nat,
    best: Seq<PeerSample>,
)
    requires
        scores.len() == samples.len(),
        all_numbers(scores),
        ranks(scores, order),
        is_best_selection(samples, scores, keep, best),
    ensures
        samples.len() == 0 ==> best.len() == 0,
        samples.len() > 0 && keep == 0 ==> best.len() == 1,
        0 < keep <= samples.len() ==> best.len() == keep,
        keep > samples.len() ==> best.len() == samples.len(),
        forall|k: int| 0 <= k < best.len() ==> #[trigger] best[k] == samples[order[k] as int],
        forall|i: int, j: int|
            0 <= i <= j < scores.len() ==> scores[#[trigger] order[i] as int].rank() <= scores[
                #[trigger] order[j] as int
            ].rank(),
{
    let chosen = choose|chosen: Seq<usize>| #[trigger]
        ranks(scores, chosen) && best == arranged(samples, chosen).take(
            kept_count(samples.len(), keep) as int,
        );
    crate::ranking::law_ranking_is_unique(scores, chosen, order);
    assert forall|i: int, j: int| 0 <= i <= j < scores.len() implies scores[
        #[trigger] order[i] as int
    ].rank() <= scores[#[trigger] order[j] as int].rank() by {
        if i < j {
            assert(crate::ranking::precedes(scores, order[i], order[j]));
        }
    }
}

/// Trimming keeps the middle of the samples by rising offset: `trim` of them go from the low end,
/// and as many from the high end as leave at least one.
pub proof fn law_trimming_keeps_the_middle(
    samples: Seq<PeerSample>,
    order: Seq<usize>,
    trim: int,
    kept: Seq<PeerSample>,
)
    requires
        0 <= trim < samples.len(),
        all_numbers(offset_medians(samples)),
        ranks(offset_medians(samples), order),
        is_trimmed(samples, trim, kept),
    ensures
        2 * trim < samples.len() ==> kept.len() == samples.len() - 2 * trim,
        2 * trim >= samples.len() ==> kept.len() == 1,
        forall|k: int|
            0 <= k < kept.len() ==> #[trigger] kept[k] == samples[order[trim + k] as int],
        forall|i: int, j: int|
            0 <= i <= j < kept.len() ==> (#[trigger] kept[i]).offset_median_ns.rank() <= (
            #[trigger] kept[j]).offset_median_ns.rank(),
{
    let keys = offset_medians(samples);
    let chosen = choose|chosen: Seq<usize>| #[trigger]
        ranks(keys, chosen) && kept == arranged(samples, chosen).subrange(
            trim,
            trim_end(samples.len() as int, trim),
        );
    crate::ranking::law_ranking_is_unique(keys, chosen, order);
    assert forall|k: int| 0 <= k < kept.len() implies #[trigger] kept[k] == samples[order[trim
        + k] as int] by {}
    assert forall|i: int, j: int| 0 <= i <= j < kept.len() implies (
    #[trigger] kept[i]).offset_median_ns.rank() <= (#[trigger] kept[j]).offset_median_ns.rank() by {
        assert(order[trim + i] < samples.len() && order[trim + j] < samples.len());
        if i < j {
            assert(crate::ranking::precedes(keys, order[trim + i], order[trim + j]));
        }
    }
}

/// `sample` is one of the first `n` of `samples` in the order `order`.
pub open spec fn is_among_first(
    samples: Seq<PeerSample>,
    order: Seq<usize>,
    n: int,
    sample: PeerSample,
) -> bool {
    exists|i: int| 0 <= i < n && samples[#[trigger] order[i] as int] == sample
}

/// What is fused is the middle by offset of the best by score: every sample that is kept is one of
/// the selected ones, and their offsets rise.
pub proof fn law_fused_samples_are_the_best_and_central(
    samples: Seq<PeerSample>,
    scores: Seq<Binary64>,
    order: Seq<usize>,
    keep: nat,
    trim: int,
    kept: Seq<PeerSample>,
)
    requires
        scores.len() == samples.len(),
        0 < keep <= samples.len(),
        0 <= trim < keep,
        all_numbers(scores),
        ranks(scores, order),
        all_numbers(offset_medians(samples)),
        is_selected_and_trimmed(samples, scores, keep, trim, kept),
    ensures
        2 * trim < keep ==> kept.len() == keep - 2 * trim,
        2 * trim >= keep ==> kept.len() == 1,
        forall|k: int|
            0 <= k < kept.len() ==> is_among_first(samples, order, keep as int, #[trigger] kept[k]),
        forall|i: int, j: int|
            0 <= i <= j < kept.len() ==> (#[trigger] kept[i]).offset_median_ns.rank() <= (
            #[trigger] kept[j]).offset_median_ns.rank(),
{
    let best = choose|best: Seq<PeerSample>| #[trigger]
        is_best_selection(samples, scores, keep, best) && is_trimmed(best, trim, kept);
    law_selection_is_by_rising_score(samples, scores, order, keep, best);
    let keys = offset_medians(best);
    assert forall|k: int| 0 <= k < keys.len() implies !(#[trigger] keys[k]).is_nan_spec() by {
        assert(best[k] == samples[order[k] as int]);
        assert(order[k] < samples.len());
        assert(!offset_medians(samples)[order[k] as int].is_nan_spec());
    }
    let inner = choose|inner: Seq<usize>| #[trigger]
        ranks(keys, inner) && kept == arranged(best, inner).subrange(
            trim,
            trim_end(best.len() as int, trim),
        );
    law_trimming_keeps_the_middle(best, inner, trim, kept);
    assert forall|k: int| 0 <= k < kept.len() implies is_among_first(
        samples,
        order,
        keep as int,
        #[trigger] kept[k],
    ) by {
        let i = inner[trim + k] as int;
        assert(kept[k] == best[i]);
        assert(best[i] == samples[order[i] as int]);
    }
}

} // verus!
