//! Refresh rates: what counts as a real one, which rates an adapter offers, and
//! which of them a fullscreen device is asked for.

use vstd::prelude::*;
use crate::d3d::DisplayModeEx;
use crate::nonzero::NonZeroU32;

verus! {

/// At most this many distinct rates are kept.
pub const MAX_ENUM_RATES: usize = 64;

/// At most this many modes are scanned.
pub const MAX_ENUM_SCAN: u32 = 4096;

/// How the fullscreen refresh rate is chosen.
#[derive(Clone, Copy, Debug, PartialEq, Eq, Structural)]
pub enum RefreshRateMode {
    Native,
    NativeMultiple,
    Fixed(NonZeroU32),
}

/// 0 and 1 mean "hardware default rate" and are no real rates.
pub open spec fn real_rate(rate: u32) -> bool {
    rate > 1
}

/// Returns whether `rate` is a real refresh rate.
pub fn is_real_refresh_rate(rate: u32) -> (res: bool)
    ensures
        res == real_rate(rate),
{
    rate > 1
}

/// The nominal rate behind a reported one: NTSC-derived rates (59.94, 119.88,
/// 143.86, ...) are reported one below a multiple of 12 and stand for that multiple.
pub open spec fn nominal_rate(rate: u32) -> u32 {
    if rate % 12 == 11 {
        (rate + 1) as u32
    } else {
        rate
    }
}

/// Rounds up NTSC-derived (1000/1001) refresh rates.
pub fn normalize_reported_rate(rate: u32) -> (res: u32)
    ensures
        res == nominal_rate(rate),
        res == rate || res == rate + 1,
{
    if rate % 12 == 11 {
        rate + 1
    } else {
        rate
    }
}

/// The highest rate of `s` that `p` accepts.
pub open spec fn highest(s: Seq<u32>, p: spec_fn(u32) -> bool) -> Option<u32>
    decreases s.len(),
{
    if s.len() == 0 {
        None
    } else {
        let rest = highest(s.drop_last(), p);
        if !p(s.last()) {
            rest
        } else {
            match rest {
                Some(r) if r >= s.last() => Some(r),
                _ => Some(s.last()),
            }
        }
    }
}

/// The lowest rate of `s`.
pub open spec fn lowest(s: Seq<u32>) -> Option<u32>
    decreases s.len(),
{
    if s.len() == 0 {
        None
    } else {
        match lowest(s.drop_last()) {
            Some(r) if r <= s.last() => Some(r),
            _ => Some(s.last()),
        }
    }
}

/// The first rate of `s` that `p` accepts.
pub open spec fn first_where(s: Seq<u32>, p: spec_fn(u32) -> bool) -> Option<u32>
    decreases s.len(),
{
    if s.len() == 0 {
        None
    } else {
        match first_where(s.drop_last(), p) {
            Some(r) => Some(r),
            None => if p(s.last()) {
                Some(s.last())
            } else {
                None
            },
        }
    }
}

/// [`highest`] is one of the accepted rates, no accepted rate is above it, and
/// there is none exactly when nothing is accepted.
pub proof fn lemma_highest(s: Seq<u32>, p: spec_fn(u32) -> bool)
    ensures
        match highest(s, p) {
            Some(r) => s.contains(r) && p(r) && forall|i: int|
                0 <= i < s.len() && p(#[trigger] s[i]) ==> s[i] <= r,
            None => forall|i: int| 0 <= i < s.len() ==> !p(#[trigger] s[i]),
        },
    decreases s.len(),
{
    if s.len() > 0 {
        let front = s.drop_last();
        lemma_highest(front, p);
        assert(forall|i: int| 0 <= i < front.len() ==> front[i] == s[i]);
        assert(s.last() == s[s.len() - 1]);
        if let Some(r) = highest(front, p) {
            let k = choose|k: int| 0 <= k < front.len() && front[k] == r;
            assert(s[k] == r);
        }
        assert forall|i: int| 0 <= i < s.len() && p(#[trigger] s[i]) implies highest(s, p) is Some
            && s[i] <= highest(s, p)->0 by {
            if i < front.len() {
                assert(front[i] == s[i]);
            }
        }
    }
}

/// [`lowest`] is one of the rates, and none is below it.
pub proof fn lemma_lowest(s: Seq<u32>)
    ensures
        match lowest(s) {
            Some(r) => s.contains(r) && forall|i: int| 0 <= i < s.len() ==> r <= #[trigger] s[i],
            None => s.len() == 0,
        },
    decreases s.len(),
{
    if s.len() > 0 {
        let front = s.drop_last();
        lemma_lowest(front);
        assert(s.last() == s[s.len() - 1]);
        if let Some(r) = lowest(front) {
            let k = choose|k: int| 0 <= k < front.len() && front[k] == r;
            if front.len() > 0 {
                assert(s[k] == r);
            }
        }
        assert forall|i: int| 0 <= i < s.len() implies lowest(s) is Some && lowest(s)->0
            <= #[trigger] s[i] by {
            if i < front.len() {
                assert(front[i] == s[i]);
            }
        }
    }
}

/// Accepts the rates whose nominal value is at most that of `desktop_rate`.
pub open spec fn within_desktop(desktop_rate: u32) -> spec_fn(u32) -> bool {
    |r: u32| nominal_rate(r) <= nominal_rate(desktop_rate)
}

/// Accepts the rates within the desktop rate whose nominal value is a multiple of 60.
pub open spec fn multiple_within_desktop(desktop_rate: u32) -> spec_fn(u32) -> bool {
    |r: u32| nominal_rate(r) % 60 == 0 && nominal_rate(r) <= nominal_rate(desktop_rate)
}

/// The rate that [`native_rate`] chooses.
pub open spec fn native_rate_spec(supported: Seq<u32>, desktop_rate: u32) -> u32 {
    match highest(supported, within_desktop(desktop_rate)) {
        Some(r) => r,
        None => match lowest(supported) {
            Some(r) => r,
            None => desktop_rate,
        },
    }
}

/// The rate that [`select_refresh_rate`] chooses.
pub open spec fn selected_rate(
    mode: RefreshRateMode,
    supported: Seq<u32>,
    desktop_rate: u32,
) -> u32 {
    match mode {
        RefreshRateMode::Native => native_rate_spec(supported, desktop_rate),
        RefreshRateMode::NativeMultiple => match highest(
            supported,
            multiple_within_desktop(desktop_rate),
        ) {
            Some(r) => r,
            None => native_rate_spec(supported, desktop_rate),
        },
        RefreshRateMode::Fixed(target) => if supported.contains(target@) {
            target@
        } else {
            match first_where(supported, |r: u32| nominal_rate(r) == target@) {
                Some(r) => r,
                None => target@,
            }
        },
    }
}

/// The highest supported rate at or below the desktop rate (after NTSC-derived
/// normalization), else the lowest supported rate, else the raw desktop rate when
/// the adapter advertises nothing.
pub fn native_rate(supported: &[u32], desktop_rate: u32) -> (res: u32)
    ensures
        res == native_rate_spec(supported@, desktop_rate),
{
    let ceiling: u32 = normalize_reported_rate(desktop_rate);
    let mut best: Option<u32> = None;
    let mut least: Option<u32> = None;
    let mut i: usize = 0;
    while i < supported.len()
        invariant
            i <= supported.len(),
            ceiling == nominal_rate(desktop_rate),
            best == highest(supported@.take(i as int), within_desktop(desktop_rate)),
            least == lowest(supported@.take(i as int)),
        decreases supported.len() - i,
    {
        let r: u32 = supported[i];
        proof {
            let next = supported@.take(i + 1);
            assert(next.drop_last() =~= supported@.take(i as int));
            assert(next.last() == r);
        }
        if normalize_reported_rate(r) <= ceiling {
            best = match best {
                Some(b) if b >= r => Some(b),
                _ => Some(r),
            };
        }
        least = match least {
            Some(l) if l <= r => Some(l),
            _ => Some(r),
        };
        i += 1;
    }
    assert(supported@.take(i as int) =~= supported@);
    match best {
        Some(r) => r,
        None => match least {
            Some(r) => r,
            None => desktop_rate,
        },
    }
}

/// The highest supported multiple of 60 not above the desktop rate.
fn highest_multiple(supported: &[u32], desktop_rate: u32) -> (res: Option<u32>)
    ensures
        res == highest(supported@, multiple_within_desktop(desktop_rate)),
{
    let ceiling: u32 = normalize_reported_rate(desktop_rate);
    let mut best: Option<u32> = None;
    let mut i: usize = 0;
    while i < supported.len()
        invariant
            i <= supported.len(),
            ceiling == nominal_rate(desktop_rate),
            best == highest(supported@.take(i as int), multiple_within_desktop(desktop_rate)),
        decreases supported.len() - i,
    {
        let r: u32 = supported[i];
        proof {
            let next = supported@.take(i + 1);
            assert(next.drop_last() =~= supported@.take(i as int));
            assert(next.last() == r);
        }
        let hz: u32 = normalize_reported_rate(r);
        if hz % 60 == 0 && hz <= ceiling {
            best = match best {
                Some(b) if b >= r => Some(b),
                _ => Some(r),
            };
        }
        i += 1;
    }
    assert(supported@.take(i as int) =~= supported@);
    best
}

/// The supported rate for a fixed `target`.
fn fixed_rate(supported: &[u32], target: u32) -> (res: u32)
    ensures
        res == if supported@.contains(target) {
            target
        } else {
            match first_where(supported@, |r: u32| nominal_rate(r) == target) {
                Some(r) => r,
                None => target,
            }
        },
{
    let ghost p = |r: u32| nominal_rate(r) == target;
    let mut near: Option<u32> = None;
    let mut i: usize = 0;
    while i < supported.len()
        invariant
            i <= supported.len(),
            p == (|r: u32| nominal_rate(r) == target),
            near == first_where(supported@.take(i as int), p),
            !supported@.take(i as int).contains(target),
        decreases supported.len() - i,
    {
        let r: u32 = supported[i];
        if r == target {
            assert(supported@[i as int] == target);
            return target;
        }
        proof {
            let next = supported@.take(i + 1);
            assert(next.drop_last() =~= supported@.take(i as int));
            assert(next.last() == r);
            assert forall|k: int| 0 <= k < next.len() implies next[k] != target by {
                if k < i {
                    assert(supported@.take(i as int)[k] == next[k]);
                }
            }
        }
        if near.is_none() && normalize_reported_rate(r) == target {
            near = Some(r);
        }
        i += 1;
    }
    assert(supported@.take(i as int) =~= supported@);
    match near {
        Some(r) => r,
        None => target,
    }
}

/// Applies the refresh-rate policy against the adapter's `supported` rates at the
/// target resolution. `desktop_rate` is the raw reported rate.
///
/// - `Native`: see [`native_rate`].
/// - `NativeMultiple`: the highest supported multiple of 60 not above the desktop
///   rate, or the `Native` value if no multiple of 60 is available.
/// - `Fixed`: the supported rate equal to the target, else one that normalizes to
///   it (e.g. 119 for a target of 120), else the target unchanged.
pub fn select_refresh_rate(mode: RefreshRateMode, supported: &[u32], desktop_rate: u32) -> (res:
    u32)
    ensures
        res == selected_rate(mode, supported@, desktop_rate),
{
    match mode {
        RefreshRateMode::Native => native_rate(supported, desktop_rate),
        RefreshRateMode::NativeMultiple => match highest_multiple(supported, desktop_rate) {
            Some(r) => r,
            None => native_rate(supported, desktop_rate),
        },
        RefreshRateMode::Fixed(target) => fixed_rate(supported, target.get()),
    }
}

/// A rate chosen by any policy is one of the advertised rates, or, when there is
/// none to choose from, the desktop rate or the fixed target itself.
pub proof fn lemma_selected_rate_is_advertised(
    mode: RefreshRateMode,
    supported: Seq<u32>,
    desktop_rate: u32,
)
    ensures
        match mode {
            RefreshRateMode::Fixed(target) => selected_rate(mode, supported, desktop_rate)
                == target@ || (supported.contains(selected_rate(mode, supported, desktop_rate))
                && nominal_rate(selected_rate(mode, supported, desktop_rate)) == target@),
            _ => if supported.len() == 0 {
                selected_rate(mode, supported, desktop_rate) == desktop_rate
            } else {
                supported.contains(selected_rate(mode, supported, desktop_rate))
            },
        },
{
    lemma_highest(supported, within_desktop(desktop_rate));
    lemma_highest(supported, multiple_within_desktop(desktop_rate));
    lemma_lowest(supported);
    if let RefreshRateMode::Fixed(target) = mode {
        lemma_first_where(supported, |r: u32| nominal_rate(r) == target@);
    }
}

/// [`first_where`] is the accepted rate of `s` that no other accepted rate stands before,
/// and there is none exactly when nothing is accepted.
pub proof fn lemma_first_where(s: Seq<u32>, p: spec_fn(u32) -> bool)
    ensures
        match first_where(s, p) {
            Some(r) => p(r) && exists|k: int|
                0 <= k < s.len() && #[trigger] s[k] == r && forall|i: int|
                    0 <= i < k ==> !p(#[trigger] s[i]),
            None => forall|i: int| 0 <= i < s.len() ==> !p(#[trigger] s[i]),
        },
    decreases s.len(),
{
    if s.len() > 0 {
        let front = s.drop_last();
        lemma_first_where(front, p);
        assert(s.last() == s[s.len() - 1]);
        if let Some(r) = first_where(front, p) {
            let k = choose|k: int|
                0 <= k < front.len() && #[trigger] front[k] == r && forall|i: int|
                    0 <= i < k ==> !p(#[trigger] front[i]);
            assert(s[k] == r);
            assert forall|i: int| 0 <= i < k implies !p(#[trigger] s[i]) by {
                assert(front[i] == s[i]);
            }
        } else {
            assert forall|i: int| 0 <= i < front.len() implies !p(#[trigger] s[i]) by {
                assert(front[i] == s[i]);
            }
            assert forall|i: int| 0 <= i < s.len() && first_where(s, p) is None implies !p(
                #[trigger] s[i],
            ) by {
                if i < front.len() {
                    assert(front[i] == s[i]);
                }
            }
        }
    }
}

/// A native pick never exceeds the desktop rate while some advertised rate fits it.
pub proof fn lemma_native_pick_fits_desktop(supported: Seq<u32>, desktop_rate: u32)
    requires
        exists|i: int|
            0 <= i < supported.len() && nominal_rate(#[trigger] supported[i]) <= nominal_rate(
                desktop_rate,
            ),
    ensures
        nominal_rate(selected_rate(RefreshRateMode::Native, supported, desktop_rate))
            <= nominal_rate(desktop_rate),
        nominal_rate(selected_rate(RefreshRateMode::NativeMultiple, supported, desktop_rate))
            <= nominal_rate(desktop_rate),
{
    lemma_highest(supported, within_desktop(desktop_rate));
    lemma_highest(supported, multiple_within_desktop(desktop_rate));
    let i = choose|i: int|
        0 <= i < supported.len() && nominal_rate(#[trigger] supported[i]) <= nominal_rate(
            desktop_rate,
        );
    assert(within_desktop(desktop_rate)(supported[i]));
}

/// What there is to report about a fixed target before it is used.
#[derive(Clone, Copy, Debug, PartialEq, Eq, Structural)]
pub enum FixedRateCheck {
    /// The mode fixes no rate, or the adapter advertises the target.
    Fine,
    /// The adapter advertises nothing, so the target is used unvalidated.
    Unvalidated,
    /// The adapter advertises other rates only.
    Unsupported,
}

/// Compares a fixed target against the advertised rates.
pub fn check_fixed_rate(mode: RefreshRateMode, supported: &[u32]) -> (res: FixedRateCheck)
    ensures
        res == match mode {
            RefreshRateMode::Fixed(target) => if supported@.len() == 0 {
                FixedRateCheck::Unvalidated
            } else if exists|i: int|
                0 <= i < supported@.len() && (supported@[i] == target@ || nominal_rate(
                    #[trigger] supported@[i],
                ) == target@) {
                FixedRateCheck::Fine
            } else {
                FixedRateCheck::Unsupported
            },
            _ => FixedRateCheck::Fine,
        },
{
    let target: u32 = match mode {
        RefreshRateMode::Fixed(target) => target.get(),
        _ => {
            return FixedRateCheck::Fine;
        },
    };
    if supported.len() == 0 {
        return FixedRateCheck::Unvalidated;
    }
    let mut i: usize = 0;
    while i < supported.len()
        invariant
            i <= supported.len(),
            0 < supported.len(),
            mode is Fixed,
            mode->Fixed_0@ == target,
            forall|k: int|
                0 <= k < i ==> supported@[k] != target && nominal_rate(#[trigger] supported@[k])
                    != target,
        decreases supported.len() - i,
    {
        if supported[i] == target || normalize_reported_rate(supported[i]) == target {
            assert(supported@[i as int] == target || nominal_rate(supported@[i as int]) == target);
            return FixedRateCheck::Fine;
        }
        i += 1;
    }
    FixedRateCheck::Unsupported
}

/// Whether `mode` is a reported mode with a real rate at exactly `width` x `height`.
pub open spec fn usable_mode(mode: Option<DisplayModeEx>, width: u32, height: u32) -> bool {
    match mode {
        Some(m) => m.width == width && m.height == height && real_rate(m.refresh_rate),
        None => false,
    }
}

/// The distinct rates of the usable modes of `modes`, in order of first appearance;
/// once [`MAX_ENUM_RATES`] are kept, the rest is left out.
pub open spec fn distinct_rates(
    modes: Seq<Option<DisplayModeEx>>,
    width: u32,
    height: u32,
) -> Seq<u32>
    decreases modes.len(),
{
    if modes.len() == 0 {
        seq![]
    } else {
        let kept = distinct_rates(modes.drop_last(), width, height);
        let mode = modes.last();
        if kept.len() < MAX_ENUM_RATES && usable_mode(mode, width, height) && !kept.contains(
            mode->0.refresh_rate,
        ) {
            kept.push(mode->0.refresh_rate)
        } else {
            kept
        }
    }
}

/// A walk over the modes an adapter enumerates, collecting the distinct refresh
/// rates at one resolution. The mode to query next is [`RateScan::next_index`]; its
/// result is handed to [`RateScan::offer`].
pub struct RateScan {
    width: u32,
    height: u32,
    limit: u32,
    next: u32,
    rates: Vec<u32>,
    seen: Ghost<Seq<Option<DisplayModeEx>>>,
}

impl RateScan {
    /// The resolution whose rates are collected.
    pub closed spec fn resolution(self) -> (u32, u32) {
        (self.width, self.height)
    }

    /// How many modes there are to scan.
    pub closed spec fn limit(self) -> u32 {
        self.limit
    }

    /// The results offered so far.
    pub closed spec fn seen(self) -> Seq<Option<DisplayModeEx>> {
        self.seen@
    }

    /// The rates kept so far.
    pub closed spec fn kept(self) -> Seq<u32> {
        self.rates@
    }

    /// Whether another mode is to be queried.
    pub open spec fn wants_more(self) -> bool {
        self.seen().len() < self.limit() && self.kept().len() < MAX_ENUM_RATES
    }

    /// The rates kept are the distinct usable ones of what was seen.
    pub closed spec fn wf(self) -> bool {
        &&& self.next == self.seen@.len()
        &&& self.rates@ == distinct_rates(self.seen@, self.width, self.height)
        &&& self.rates@.len() <= MAX_ENUM_RATES
    }

    /// Starts a scan of `count` modes for the rates at `width` x `height`.
    pub fn new(count: u32, width: u32, height: u32) -> (scan: RateScan)
        ensures
            scan.wf(),
            scan.resolution() == (width, height),
            scan.limit() == if count <= MAX_ENUM_SCAN {
                count
            } else {
                MAX_ENUM_SCAN
            },
            scan.seen().len() == 0,
            scan.kept().len() == 0,
    {
        let limit: u32 = if count <= MAX_ENUM_SCAN {
            count
        } else {
            MAX_ENUM_SCAN
        };
        RateScan { width, height, limit, next: 0, rates: Vec::new(), seen: Ghost(Seq::empty()) }
    }

    /// The index of the mode to query next, or `None` when the scan is over.
    pub fn next_index(&self) -> (res: Option<u32>)
        requires
            self.wf(),
        ensures
            match res {
                Some(i) => self.wants_more() && i == self.seen().len(),
                None => !self.wants_more(),
            },
    {
        if self.next < self.limit && self.rates.len() < MAX_ENUM_RATES {
            Some(self.next)
        } else {
            None
        }
    }

    /// Takes the result of the query for the next mode; `None` stands for a failed one.
    pub fn offer(&mut self, mode: Option<DisplayModeEx>)
        requires
            old(self).wf(),
            old(self).wants_more(),
        ensures
            final(self).wf(),
            final(self).resolution() == old(self).resolution(),
            final(self).limit() == old(self).limit(),
            final(self).seen() == old(self).seen().push(mode),
            final(self).kept() == distinct_rates(
                old(self).seen().push(mode),
                old(self).resolution().0,
                old(self).resolution().1,
            ),
    {
        let ghost before = self.seen@;
        proof {
            assert(before.push(mode).drop_last() =~= before);
            assert(before.push(mode).last() == mode);
        }
        if let Some(m) = mode {
            if m.width == self.width && m.height == self.height && is_real_refresh_rate(
                m.refresh_rate,
            ) && !contains_rate(&self.rates, m.refresh_rate) {
                self.rates.push(m.refresh_rate);
            }
        }
        self.seen = Ghost(before.push(mode));
        self.next = self.next + 1;
    }

    /// The rates collected.
    pub fn into_rates(self) -> (rates: Vec<u32>)
        requires
            self.wf(),
        ensures
            rates@ == self.kept(),
            rates@ == distinct_rates(self.seen(), self.resolution().0, self.resolution().1),
    {
        self.rates
    }
}

/// Returns whether `rates` holds `rate`.
fn contains_rate(rates: &Vec<u32>, rate: u32) -> (res: bool)
    ensures
        res == rates@.contains(rate),
{
    let mut i: usize = 0;
    while i < rates.len()
        invariant
            i <= rates.len(),
            forall|k: int| 0 <= k < i ==> rates@[k] != rate,
        decreases rates.len() - i,
    {
        if rates[i] == rate {
            assert(rates@[i as int] == rate);
            return true;
        }
        i += 1;
    }
    false
}

/// Returns the distinct refresh rates among the results of querying the modes
/// `0..count` of an adapter, at exactly `width` x `height`. At most
/// [`MAX_ENUM_SCAN`] modes are scanned and at most [`MAX_ENUM_RATES`] rates kept.
pub fn enumerate_supported_rates(
    count: u32,
    results: &[Option<DisplayModeEx>],
    width: u32,
    height: u32,
) -> (rates: Vec<u32>)
    requires
        results@.len() >= if count <= MAX_ENUM_SCAN {
            count
        } else {
            MAX_ENUM_SCAN
        },
    ensures
        rates@ == distinct_rates(
            results@.take(
                if count <= MAX_ENUM_SCAN {
                    count as int
                } else {
                    MAX_ENUM_SCAN as int
                },
            ),
            width,
            height,
        ),
{
    let mut scan = RateScan::new(count, width, height);
    let ghost limit = scan.limit() as int;
    loop
        invariant
            scan.wf(),
            scan.resolution() == (width, height),
            scan.limit() == limit,
            limit <= results@.len(),
            scan.seen().len() <= limit,
            scan.seen() == results@.take(scan.seen().len() as int),
        ensures
            scan.wf(),
            scan.resolution() == (width, height),
            scan.limit() == limit,
            limit <= results@.len(),
            scan.seen().len() <= limit,
            scan.seen() == results@.take(scan.seen().len() as int),
            !scan.wants_more(),
        decreases limit - scan.seen().len(),
    {
        let index: u32 = match scan.next_index() {
            Some(i) => i,
            None => {
                break;
            },
        };
        let ghost before = scan.seen();
        scan.offer(results[index as usize]);
        assert(before.push(results@[index as int]) =~= results@.take(index + 1));
    }
    proof {
        assert(results@.take(limit).take(scan.seen().len() as int) =~= scan.seen());
        lemma_full_table_is_final(results@.take(limit), scan.seen().len() as int, width, height);
    }
    scan.into_rates()
}

/// Once the table is full, or at the end of the modes, the rates collected from a
/// prefix are those of all the modes.
proof fn lemma_full_table_is_final(
    modes: Seq<Option<DisplayModeEx>>,
    n: int,
    width: u32,
    height: u32,
)
    requires
        0 <= n <= modes.len(),
        n == modes.len() || distinct_rates(modes.take(n), width, height).len() >= MAX_ENUM_RATES,
    ensures
        distinct_rates(modes, width, height) == distinct_rates(modes.take(n), width, height),
    decreases modes.len() - n,
{
    if n == modes.len() {
        assert(modes.take(n) =~= modes);
    } else {
        let next = modes.take(n + 1);
        assert(next.drop_last() =~= modes.take(n));
        lemma_full_table_is_final(modes, n + 1, width, height);
    }
}

/// The collected rates are real, pairwise distinct, and never more than
/// [`MAX_ENUM_RATES`].
pub proof fn lemma_distinct_rates(modes: Seq<Option<DisplayModeEx>>, width: u32, height: u32)
    ensures
        distinct_rates(modes, width, height).no_duplicates(),
        distinct_rates(modes, width, height).len() <= MAX_ENUM_RATES,
        forall|i: int|
            0 <= i < distinct_rates(modes, width, height).len() ==> real_rate(
                #[trigger] distinct_rates(modes, width, height)[i],
            ),
    decreases modes.len(),
{
    if modes.len() > 0 {
        lemma_distinct_rates(modes.drop_last(), width, height);
    }
}

/// Exactly 0 and 1 are no real rates.
pub proof fn lemma_real_rate(rate: u32)
    ensures
        real_rate(rate) <==> rate != 0 && rate != 1,
{
}

/// A nominal rate is never one below a multiple of 12, and a rate that is no NTSC-derived
/// one is its own nominal rate: the only change is by one, onto a multiple of 12.
pub proof fn lemma_nominal_rate(rate: u32)
    ensures
        nominal_rate(rate) as int % 12 != 11,
        nominal_rate(rate) != rate ==> nominal_rate(rate) == rate + 1 && (rate + 1) % 12 == 0,
        nominal_rate(nominal_rate(rate)) == nominal_rate(rate),
{
}

/// A native pick is the highest advertised rate that does not exceed the desktop rate. If
/// all of them do, it is the lowest one; if there are none, the desktop rate itself.
pub proof fn lemma_native_pick(supported: Seq<u32>, desktop_rate: u32)
    ensures
        ({
            let pick = selected_rate(RefreshRateMode::Native, supported, desktop_rate);
            &&& supported.len() == 0 ==> pick == desktop_rate
            &&& supported.len() > 0 ==> supported.contains(pick)
            &&& nominal_rate(pick) <= nominal_rate(desktop_rate) ==> forall|i: int|
                0 <= i < supported.len() && nominal_rate(#[trigger] supported[i]) <= nominal_rate(
                    desktop_rate,
                ) ==> supported[i] <= pick
            &&& nominal_rate(pick) > nominal_rate(desktop_rate) ==> forall|i: int|
                0 <= i < supported.len() ==> pick <= #[trigger] supported[i] && nominal_rate(
                    supported[i],
                ) > nominal_rate(desktop_rate)
        }),
{
    let p = within_desktop(desktop_rate);
    lemma_highest(supported, p);
    lemma_lowest(supported);
    assert forall|i: int| 0 <= i < supported.len() implies p(#[trigger] supported[i]) == (
    nominal_rate(supported[i]) <= nominal_rate(desktop_rate)) by {}
}

/// The default pick is the highest advertised rate whose nominal value is a multiple of 60
/// and at most the desktop's. Where there is no such rate, it is the native pick.
pub proof fn lemma_native_multiple_pick(supported: Seq<u32>, desktop_rate: u32)
    ensures
        ({
            let pick = selected_rate(RefreshRateMode::NativeMultiple, supported, desktop_rate);
            &&& (exists|i: int|
                0 <= i < supported.len() && nominal_rate(#[trigger] supported[i]) as int % 60 == 0
                    && nominal_rate(supported[i]) <= nominal_rate(desktop_rate)) ==> {
                &&& supported.contains(pick)
                &&& nominal_rate(pick) as int % 60 == 0
                &&& nominal_rate(pick) <= nominal_rate(desktop_rate)
                &&& forall|i: int|
                    0 <= i < supported.len() && nominal_rate(#[trigger] supported[i]) as int % 60
                        == 0 && nominal_rate(supported[i]) <= nominal_rate(desktop_rate)
                        ==> supported[i] <= pick
            }
            &&& (forall|i: int|
                0 <= i < supported.len() ==> nominal_rate(#[trigger] supported[i]) as int % 60 != 0
                    || nominal_rate(supported[i]) > nominal_rate(desktop_rate)) ==> pick
                == selected_rate(RefreshRateMode::Native, supported, desktop_rate)
        }),
{
    let p = multiple_within_desktop(desktop_rate);
    lemma_highest(supported, p);
    assert forall|i: int| 0 <= i < supported.len() implies p(#[trigger] supported[i]) == (
    nominal_rate(supported[i]) as int % 60 == 0 && nominal_rate(supported[i]) <= nominal_rate(
        desktop_rate,
    )) by {}
}

/// A fixed pick is the configured rate, unless only a reported rate that stands for it is
/// advertised: then it is the first of those.
pub proof fn lemma_fixed_pick(target: NonZeroU32, supported: Seq<u32>, desktop_rate: u32)
    ensures
        ({
            let pick = selected_rate(RefreshRateMode::Fixed(target), supported, desktop_rate);
            &&& supported.contains(target@) ==> pick == target@
            &&& (forall|i: int|
                0 <= i < supported.len() ==> nominal_rate(#[trigger] supported[i]) != target@)
                ==> pick == target@
            &&& !supported.contains(target@) && (exists|i: int|
                0 <= i < supported.len() && nominal_rate(#[trigger] supported[i]) == target@)
                ==> exists|k: int|
                0 <= k < supported.len() && #[trigger] supported[k] == pick && nominal_rate(pick)
                    == target@ && forall|i: int|
                    0 <= i < k ==> nominal_rate(#[trigger] supported[i]) != target@
        }),
{
    let p = |r: u32| nominal_rate(r) == target@;
    lemma_first_where(supported, p);
    assert forall|i: int| 0 <= i < supported.len() implies p(#[trigger] supported[i]) == (
    nominal_rate(supported[i]) == target@) by {}
    if !supported.contains(target@) && first_where(supported, p) is Some {
        let r = first_where(supported, p)->0;
        let k = choose|k: int|
            0 <= k < supported.len() && #[trigger] supported[k] == r && forall|i: int|
                0 <= i < k ==> !p(#[trigger] supported[i]);
        assert(supported[k] == r);
        assert forall|i: int| 0 <= i < k implies nominal_rate(#[trigger] supported[i])
            != target@ by {
            assert(!p(supported[i]));
        }
    }
}

/// What is kept of a scan comes from modes of the resolution with a real rate; and as long
/// as there is room, every such mode's rate is kept, in the order of the modes.
pub proof fn lemma_distinct_rates_complete(
    modes: Seq<Option<DisplayModeEx>>,
    width: u32,
    height: u32,
)
    ensures
        ({
            let kept = distinct_rates(modes, width, height);
            &&& forall|k: int|
                0 <= k < kept.len() ==> exists|i: int|
                    0 <= i < modes.len() && #[trigger] modes[i] is Some && modes[i]->0.width
                        == width && modes[i]->0.height == height && modes[i]->0.refresh_rate
                        == #[trigger] kept[k] && kept[k] > 1
            &&& kept.len() < 64 ==> forall|i: int|
                0 <= i < modes.len() && #[trigger] modes[i] is Some && modes[i]->0.width == width
                    && modes[i]->0.height == height && modes[i]->0.refresh_rate > 1
                    ==> kept.contains(modes[i]->0.refresh_rate)
            &&& kept.len() <= 64
        }),
    decreases modes.len(),
{
    if modes.len() > 0 {
        let front = modes.drop_last();
        lemma_distinct_rates_complete(front, width, height);
        let before = distinct_rates(front, width, height);
        let kept = distinct_rates(modes, width, height);
        let last = modes.last();
        assert forall|k: int| 0 <= k < kept.len() implies exists|i: int|
            0 <= i < modes.len() && #[trigger] modes[i] is Some && modes[i]->0.width == width
                && modes[i]->0.height == height && modes[i]->0.refresh_rate == #[trigger] kept[k]
                && kept[k] > 1 by {
            if k < before.len() {
                assert(kept[k] == before[k]);
                let i = choose|i: int|
                    0 <= i < front.len() && #[trigger] front[i] is Some && front[i]->0.width
                        == width && front[i]->0.height == height && front[i]->0.refresh_rate
                        == before[k] && before[k] > 1;
                assert(modes[i] == front[i]);
            } else {
                assert(modes[modes.len() - 1] == last);
            }
        }
        if kept.len() < 64 {
            assert forall|i: int|
                0 <= i < modes.len() && #[trigger] modes[i] is Some && modes[i]->0.width == width
                    && modes[i]->0.height == height && modes[i]->0.refresh_rate
                    > 1 implies kept.contains(modes[i]->0.refresh_rate) by {
                if i < front.len() {
                    assert(front[i] == modes[i]);
                    let r = modes[i]->0.refresh_rate;
                    let k = choose|k: int| 0 <= k < before.len() && before[k] == r;
                    assert(kept[k] == r);
                } else {
                    assert(usable_mode(last, width, height));
                    if !before.contains(last->0.refresh_rate) {
                        assert(kept[before.len() as int] == last->0.refresh_rate);
                    }
                }
            }
        }
    }
}

/// How many rates are kept, and how many modes are looked at.
pub proof fn lemma_enumeration_limits()
    ensures
        MAX_ENUM_RATES == 64,
        MAX_ENUM_SCAN == 4096,
{
}

/// A scan goes on until all modes were seen or 64 rates are kept.
pub proof fn lemma_scan_goes_on(scan: RateScan)
    ensures
        !scan.wants_more() <==> scan.seen().len() >= scan.limit() || scan.kept().len() >= 64,
{
}

} // verus!
