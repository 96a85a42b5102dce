//! The four-timestamp equations of a request/response exchange.
use vstd::prelude::*;

verus! {

/// Round-trip delay and clock offset of one exchange, in nanoseconds.
#[derive(Clone, Copy, Debug, PartialEq, Eq, Structural)]
pub struct PairCalc {
    pub delay_ns: i128,
    pub offset_ns: i128,
}

/// Half of `x`, rounded towards zero.
pub open spec fn half_towards_zero(x: int) -> int {
    if x >= 0 {
        x / 2
    } else {
        -((-x) / 2)
    }
}

/// Time spent on the wire: everything between `t1` and `t4` that the server did not hold.
pub open spec fn delay_of(t1: int, t2: int, t3: int, t4: int) -> int {
    (t4 - t1) - (t3 - t2)
}

/// Estimated offset of the server clock against the client clock.
pub open spec fn offset_of(t1: int, t2: int, t3: int, t4: int) -> int {
    half_towards_zero((t2 - t1) + (t3 - t4))
}

/// `x` fits in 128 bits.
pub open spec fn fits_i128(x: int) -> bool {
    i128::MIN <= x <= i128::MAX
}

/// None of the differences and sums of the four-timestamp equations leaves 128 bits.
pub open spec fn exchange_in_range(t1: int, t2: int, t3: int, t4: int) -> bool {
    &&& fits_i128(t4 - t1)
    &&& fits_i128(t3 - t2)
    &&& fits_i128(delay_of(t1, t2, t3, t4))
    &&& fits_i128(t2 - t1)
    &&& fits_i128(t3 - t4)
    &&& fits_i128((t2 - t1) + (t3 - t4))
}

/// Delay and offset from the client's send time `t1`, the server's receive and send times `t2`
/// and `t3`, and the client's receive time `t4`.
pub fn compute_offset_delay(t1: i128, t2: i128, t3: i128, t4: i128) -> (calc: PairCalc)
    requires
        exchange_in_range(t1 as int, t2 as int, t3 as int, t4 as int),
    ensures
        calc.delay_ns == delay_of(t1 as int, t2 as int, t3 as int, t4 as int),
        calc.offset_ns == offset_of(t1 as int, t2 as int, t3 as int, t4 as int),
{
    // classic four-timestamp equations
    let delay: i128 = (t4 - t1) - (t3 - t2);
    let offset: i128 = ((t2 - t1) + (t3 - t4)) / 2;
    PairCalc { delay_ns: delay, offset_ns: offset }
}

/// With a server clock ahead by `theta` and one-way delays `out` and `back`, the computed delay
/// is the sum of the two one-way delays, whatever the clocks show.
pub proof fn law_delay_is_round_trip(t1: int, t3: int, theta: int, out: int, back: int)
    ensures
        delay_of(t1, t1 + out + theta, t3, t3 + back - theta) == out + back,
{
}

/// On a symmetric path the offset estimate is exact.
pub proof fn law_symmetric_path_is_exact(t1: int, t3: int, theta: int, one_way: int)
    ensures
        offset_of(t1, t1 + one_way + theta, t3, t3 + one_way - theta) == theta,
{
}

/// However asymmetric the path, the offset estimate misses the true offset by at most half the
/// computed delay, rounded up to a whole nanosecond.
pub proof fn law_offset_error_within_half_delay(
    t1: int,
    t3: int,
    theta: int,
    out: int,
    back: int,
)
    requires
        out >= 0,
        back >= 0,
    ensures
        ({
            let (t2, t4) = (t1 + out + theta, t3 + back - theta);
            let error = offset_of(t1, t2, t3, t4) - theta;
            let bound = (delay_of(t1, t2, t3, t4) + 1) / 2;
            -bound <= error <= bound
        }),
{
}

/// Setting the server clock forward by `shift` leaves the delay as it was.
pub proof fn law_delay_ignores_server_clock(t1: int, t2: int, t3: int, t4: int, shift: int)
    ensures
        delay_of(t1, t2 + shift, t3 + shift, t4) == delay_of(t1, t2, t3, t4),
{
}

/// Moving both clocks by the same amount changes neither delay nor offset.
pub proof fn law_common_shift_cancels(t1: int, t2: int, t3: int, t4: int, shift: int)
    ensures
        delay_of(t1 + shift, t2 + shift, t3 + shift, t4 + shift) == delay_of(t1, t2, t3, t4),
        offset_of(t1 + shift, t2 + shift, t3 + shift, t4 + shift) == offset_of(t1, t2, t3, t4),
{
}

/// Seen from the other side the offset changes its sign and nothing else.
pub proof fn law_offset_is_antisymmetric(t1: int, t2: int, t3: int, t4: int)
    ensures
        offset_of(t2, t1, t4, t3) == -offset_of(t1, t2, t3, t4),
{
}

/// The offset is half of what the two ways together differ by, rounded towards zero: twice the
/// offset misses that by at most one nanosecond, and never lies beyond it.
pub proof fn law_offset_is_half_the_difference(t1: int, t2: int, t3: int, t4: int)
    ensures
        ({
            let both = (t2 - t1) + (t3 - t4);
            let offset = offset_of(t1, t2, t3, t4);
            &&& both >= 0 ==> both - 1 <= 2 * offset <= both
            &&& both <= 0 ==> both <= 2 * offset <= both + 1
        }),
        delay_of(t1, t2, t3, t4) == t4 - t1 - t3 + t2,
{
}

} // verus!
