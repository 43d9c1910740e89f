use vstd::prelude::*;

verus! {

/// One pass of a satellite over the observer.
#[derive(Clone, Copy, Debug, PartialEq, Eq, Structural)]
pub struct RadioPass {
    pub start_utc: u64,
    pub end_utc: u64,
    /// Peak elevation in hundredths of a degree, cut toward zero.
    pub max_el_centideg: i64,
}

/// What the service says of the satellite itself.
#[derive(Clone, Debug)]
pub struct RadioPassInfo {
    pub satname: String,
}

/// The passes of one satellite, in the order the service gave them.
#[derive(Clone, Debug)]
pub struct RadioPasses {
    pub info: RadioPassInfo,
    pub passes: Vec<RadioPass>,
}

/// Whole degrees nearest to `c` hundredths of a nonnegative angle, halves rounded up.
pub open spec fn round_magnitude(c: nat) -> nat {
    c / 100 + if c % 100 >= 50 { 1nat } else { 0nat }
}

/// Whole degrees nearest to `c` hundredths of a degree, halves away from zero.
pub open spec fn round_degrees(c: int) -> int {
    if c >= 0 {
        round_magnitude(c as nat) as int
    } else {
        -(round_magnitude((-c) as nat) as int)
    }
}

/// Rounds an elevation in hundredths of a degree to whole degrees.
pub fn rounded_degrees(c: i64) -> (r: i64)
    ensures
        r == round_degrees(c as int),
{
    if c >= 0 {
        let u: u64 = c as u64;
        let adj: u64 = if u % 100 >= 50 { 1 } else { 0 };
        (u / 100 + adj) as i64
    } else {
        let u: u64 = (-(c + 1)) as u64 + 1;
        let adj: u64 = if u % 100 >= 50 { 1 } else { 0 };
        -((u / 100 + adj) as i64)
    }
}

/// Lowest rounded elevation kept for a target: two below it, never under zero.
pub open spec fn window_low(target: nat) -> nat {
    if target >= 2 { (target - 2) as nat } else { 0nat }
}

/// Rounded elevations below this bound are kept for a target.
pub open spec fn window_high(target: nat) -> nat {
    target + 2
}

/// Whether a pass peaks inside the band around `target`.
pub open spec fn in_window(p: RadioPass, target: nat) -> bool {
    let r = round_degrees(p.max_el_centideg as int);
    window_low(target) <= r && r < window_high(target)
}

/// The passes kept for an optional target, in the order given.
pub open spec fn filtered(passes: Seq<RadioPass>, target: Option<u64>) -> Seq<RadioPass>
    decreases passes.len(),
{
    match target {
        None => passes,
        Some(t) => if passes.len() == 0 {
            passes
        } else {
            let rest = filtered(passes.drop_last(), target);
            if in_window(passes.last(), t as nat) {
                rest.push(passes.last())
            } else {
                rest
            }
        },
    }
}

/// With no target, filtering hands the passes back unchanged, in order.
pub proof fn filter_without_target_is_identity(passes: Seq<RadioPass>)
    ensures
        filtered(passes, None) == passes,
{
}

/// Filtering keeps a subsequence: what it keeps is in the band, and its
/// length is at most that of the input.
pub proof fn filter_keeps_only_window(passes: Seq<RadioPass>, target: u64)
    ensures
        filtered(passes, Some(target)).len() <= passes.len(),
        forall|i: int|
            0 <= i < filtered(passes, Some(target)).len() ==> in_window(
                #[trigger] filtered(passes, Some(target))[i],
                target as nat,
            ),
    decreases passes.len(),
{
    if passes.len() > 0 {
        filter_keeps_only_window(passes.drop_last(), target);
    }
}

/// The band's lower bound is two below the target but never under zero: targets
/// zero and one both start at zero, and target zero keeps rounded elevations 0 and 1.
pub proof fn window_lower_bound_is_clamped(target: u64)
    ensures
        window_low(target as nat) == if target >= 2 { target - 2 } else { 0 },
        window_low(target as nat) >= 0,
        window_low(0) == 0 && window_high(0) == 2,
        window_low(1) == 0,
{
}

/// Whether a pass at elevation `c` hundredths of a degree lies in the band around `target`.
pub fn elevation_in_window(c: i64, target: u64) -> (r: bool)
    ensures
        r == (window_low(target as nat) <= round_degrees(c as int) && round_degrees(c as int)
            < window_high(target as nat)),
{
    let d = rounded_degrees(c);
    if d < 0 {
        return false;
    }
    let d: u64 = d as u64;
    let low: u64 = if target >= 2 { target - 2 } else { 0 };
    low <= d && (d as u128) < (target as u128) + 2
}

/// Keeps the passes whose rounded peak elevation lies within two degrees below
/// and under two degrees above `target`; with no target, keeps every pass.
pub fn filter_passes(passes: &Vec<RadioPass>, target: Option<u64>) -> (r: Vec<RadioPass>)
    ensures
        r@ == filtered(passes@, target),
{
    match target {
        None => passes.clone(),
        Some(t) => {
            let mut r: Vec<RadioPass> = Vec::new();
            let mut i: usize = 0;
            while i < passes.len()
                invariant
                    i <= passes.len(),
                    target == Some(t),
                    r@ == filtered(passes@.subrange(0, i as int), target),
                decreases passes.len() - i,
            {
                let p = passes[i];
                assert(passes@.subrange(0, i + 1).drop_last() =~= passes@.subrange(0, i as int));
                if elevation_in_window(p.max_el_centideg, t) {
                    r.push(p);
                }
                i = i + 1;
            }
            assert(passes@.subrange(0, i as int) =~= passes@);
            r
        },
    }
}

} // verus!
