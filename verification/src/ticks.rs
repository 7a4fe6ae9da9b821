//! Tick generation for linear, logarithmic and symmetric-log scales.
//!
//! [`TickSet::generate_ticks`] is the entry point. A linear scale places its
//! ticks at the multiples of a nice step; a logarithmic scale at the integer
//! powers of its base, with minor ticks at the integer multiples in between; a
//! symmetric-log scale joins a linear core around zero with a logarithmic wing
//! on either side.

use vstd::prelude::*;
use vstd::string::StringExecFns;
use crate::common::{
    greater, in_log_range, lesser, linear_first, linear_last, linear_spacing, linear_step,
    log_majors, log_minors, log_spacing, log_valid,
};
use crate::fixed::{
    div_round, in_domain, lemma_round_bounds, magnitude, quot_round, COORD_MAX, SCALE,
};
use crate::label::{
    decimals_for_step, format_log_label, format_tick, log_label, step_decimals, tick_label,
};
use crate::line::Separation;

verus! {

/// A single tick mark along an axis.
#[derive(Debug)]
pub struct Tick {
    /// Position of the tick, in raw data units.
    pub value: i64,
    /// Label of the tick; empty for an unlabelled minor tick.
    pub label: String,
    /// Whether the tick is a major one.
    pub major: bool,
}

/// What a tick is to the contracts: its value, the characters of its label and
/// its rank.
pub struct TickView {
    pub value: int,
    pub label: Seq<char>,
    pub major: bool,
}

impl View for Tick {
    type V = TickView;

    open spec fn view(&self) -> TickView {
        TickView { value: self.value as int, label: self.label@, major: self.major }
    }
}

impl Clone for Tick {
    fn clone(&self) -> (r: Self)
        ensures
            r@ == self@,
    {
        Tick { value: self.value, label: self.label.clone(), major: self.major }
    }
}

/// The views of a sequence of ticks.
pub open spec fn tick_views(ticks: Seq<Tick>) -> Seq<TickView> {
    ticks.map_values(|t: Tick| t@)
}

/// The scale along which ticks are placed.
#[derive(Clone, Copy, Debug, PartialEq, Eq, Structural)]
pub enum Scale {
    /// Uniform spacing between ticks.
    Linear,
    /// Ticks at the integer powers of `base`, a fixed-point number above one.
    Log {
        /// Base of the logarithm, in raw units.
        base: i64,
        /// Whether minor ticks are placed between the major ones.
        include_minor: bool,
    },
    /// Linear within `lin_threshold` of zero, logarithmic beyond it.
    SymLog {
        /// Base of the logarithm, in raw units.
        base: i64,
        /// Half-width of the linear region around zero, in raw units.
        lin_threshold: i64,
        /// Whether minor ticks are placed in the logarithmic wings.
        include_minor: bool,
    },
}

impl Default for Scale {
    fn default() -> (r: Self)
        ensures
            r == Scale::Linear,
    {
        Scale::Linear
    }
}

/// Everything that decides the ticks of one axis.
#[derive(Clone, Copy, Debug)]
pub struct TickSpec {
    /// The scale of the axis.
    pub scale: Scale,
    /// Number of ticks to aim for.
    pub max_ticks: usize,
    /// Spacing between ticks; read by the linear scale only.
    pub separation: Separation,
}

/// The ticks of one axis, in ascending order of value.
#[derive(Debug)]
pub struct TickSet {
    /// Distance between neighbouring ticks; present for a linear scale only.
    pub step: Option<i64>,
    /// The ticks.
    pub ticks: Vec<Tick>,
}

/// What a tick set is to the contracts.
pub struct TickSetView {
    pub step: Option<int>,
    pub ticks: Seq<TickView>,
}

impl View for TickSet {
    type V = TickSetView;

    open spec fn view(&self) -> TickSetView {
        TickSetView {
            step: match self.step {
                Some(s) => Some(s as int),
                None => None,
            },
            ticks: tick_views(self.ticks@),
        }
    }
}

/// The tick set without ticks and without a step.
pub open spec fn no_ticks() -> TickSetView {
    TickSetView { step: None, ticks: Seq::empty() }
}

/// The step of a linear scale: an explicit positive separation, or else the
/// step of automatic linear spacing.
pub open spec fn chosen_step(min: int, max: int, max_ticks: int, separation: Separation) -> int {
    match separation {
        Separation::Value(v) => if v > 0 {
            v as int
        } else {
            linear_step(min, max, max_ticks)
        },
        Separation::Auto => linear_step(min, max, max_ticks),
    }
}

/// The multiple of the step at which the ticks of a linear scale begin.
pub open spec fn first_multiple(min: int, max: int, max_ticks: int, separation: Separation) -> int {
    quot_round(linear_first(min, max, max_ticks), chosen_step(min, max, max_ticks, separation))
}

/// The multiple of the step at which the ticks of a linear scale end.
pub open spec fn last_multiple(min: int, max: int, max_ticks: int, separation: Separation) -> int {
    quot_round(linear_last(min, max, max_ticks), chosen_step(min, max, max_ticks, separation))
}

/// The tick of a linear scale at the multiple `k` of the step.
pub open spec fn linear_tick(k: int, step: int) -> TickView {
    TickView { value: k * step, label: tick_label(k * step, step_decimals(step) as int), major: true }
}

/// The number of ticks of a linear scale.
pub open spec fn linear_count(min: int, max: int, max_ticks: int, separation: Separation) -> nat {
    let k0 = first_multiple(min, max, max_ticks, separation);
    let k1 = last_multiple(min, max, max_ticks, separation);
    if k1 >= k0 {
        (k1 - k0 + 1) as nat
    } else {
        0
    }
}

/// The ticks of a linear scale: one at every multiple of the step from the
/// first to the last, all of them major.
pub open spec fn linear_ticks_view(
    min: int,
    max: int,
    max_ticks: int,
    separation: Separation,
) -> TickSetView {
    let step = chosen_step(min, max, max_ticks, separation);
    let k0 = first_multiple(min, max, max_ticks, separation);
    TickSetView {
        step: Some(step),
        ticks: Seq::new(
            linear_count(min, max, max_ticks, separation),
            |i: int| linear_tick(k0 + i, step),
        ),
    }
}

/// A multiple of a positive step between two rounded quotients stays within
/// half a step of the values that were rounded.
proof fn lemma_multiple_bounds(first: int, last: int, step: int, k: int)
    requires
        step > 0,
        quot_round(first, step) <= k <= quot_round(last, step),
    ensures
        2 * first - step <= 2 * (k * step) <= 2 * last + step,
{
    lemma_round_bounds(first, step);
    lemma_round_bounds(last, step);
    let k0 = quot_round(first, step);
    let k1 = quot_round(last, step);
    assert(k0 * step <= k * step <= k1 * step) by (nonlinear_arith)
        requires
            step > 0,
            k0 <= k <= k1,
    ;
    assert(2 * k0 * step == 2 * (k0 * step)) by (nonlinear_arith);
    assert(2 * k1 * step == 2 * (k1 * step)) by (nonlinear_arith);
}

/// Whether the values of a sequence of ticks never go down.
pub open spec fn is_ascending(s: Seq<TickView>) -> bool {
    forall|i: int, j: int| 0 <= i < j < s.len() ==> s[i].value <= s[j].value
}

/// Whether the values of a sequence of ticks go up from each tick to the next.
pub open spec fn is_strictly_ascending(s: Seq<TickView>) -> bool {
    forall|i: int, j: int| 0 <= i < j < s.len() ==> s[i].value < s[j].value
}

/// An ascending sequence with one more tick, put behind the ticks that are
/// not above it.
pub open spec fn inserted_by_value(s: Seq<TickView>, t: TickView) -> Seq<TickView>
    decreases s.len(),
{
    if s.len() == 0 {
        seq![t]
    } else if s.last().value <= t.value {
        s.push(t)
    } else {
        inserted_by_value(s.drop_last(), t).push(s.last())
    }
}

/// The ticks of a sequence in ascending order of value; ticks of equal value
/// keep their order.
pub open spec fn sorted_by_value(s: Seq<TickView>) -> Seq<TickView>
    decreases s.len(),
{
    if s.len() == 0 {
        Seq::empty()
    } else {
        inserted_by_value(sorted_by_value(s.drop_last()), s.last())
    }
}

/// A sequence of ticks without the ticks that have the value of the tick
/// kept before them.
pub open spec fn deduped(s: Seq<TickView>) -> Seq<TickView>
    decreases s.len(),
{
    if s.len() == 0 {
        Seq::empty()
    } else {
        let kept = deduped(s.drop_last());
        if kept.len() > 0 && kept.last().value == s.last().value {
            kept
        } else {
            kept.push(s.last())
        }
    }
}

/// The major tick of a logarithmic scale at a value.
pub open spec fn major_tick(v: int) -> TickView {
    TickView { value: v, label: log_label(v), major: true }
}

/// The minor tick of a logarithmic scale at a value; it has no label.
pub open spec fn minor_tick(v: int) -> TickView {
    TickView { value: v, label: Seq::empty(), major: false }
}

/// The major ticks of a logarithmic scale followed by its minor ticks, each
/// group in the order in which it was laid out.
pub open spec fn log_candidates(low: int, high: int, base: int, include_minor: bool) -> Seq<
    TickView,
> {
    let majors = log_majors(base, low, high).map_values(|v: int| major_tick(v));
    if include_minor {
        majors + log_minors(base, low, high).map_values(|v: int| minor_tick(v))
    } else {
        majors
    }
}

/// The ticks of a logarithmic scale over `min` and `max`: none where the
/// scale cannot be laid out, else the major and minor ticks in ascending
/// order.
pub open spec fn log_ticks_view(min: int, max: int, base: int, include_minor: bool) -> TickSetView {
    let low = lesser(min, max);
    let high = greater(min, max);
    if log_valid(base, high) {
        TickSetView {
            step: None,
            ticks: sorted_by_value(log_candidates(low, high, base, include_minor)),
        }
    } else {
        no_ticks()
    }
}

/// Whether a symmetric-log scale can be laid out: the base is above one and
/// the linear region reaches at least one unit from zero.
pub open spec fn symlog_valid(base: int, lin_threshold: int) -> bool {
    base > SCALE && lin_threshold >= SCALE
}

/// The tick budget of the linear core of a symmetric-log scale.
pub open spec fn core_budget(max_ticks: int) -> int {
    if max_ticks < 3 {
        3
    } else if max_ticks > 7 {
        7
    } else {
        max_ticks
    }
}

/// A tick of the linear core: major at zero and at the threshold on either
/// side, minor elsewhere.
pub open spec fn core_tick(t: TickView, lin_threshold: int) -> TickView {
    TickView {
        value: t.value,
        label: t.label,
        major: t.value == 0 || magnitude(t.value) == lin_threshold,
    }
}

/// A tick of the positive wing seen from the negative side: the value is
/// negated and a label, if there is one, gets a minus sign in front.
pub open spec fn mirrored_tick(t: TickView) -> TickView {
    TickView {
        value: -t.value,
        label: if t.label.len() == 0 {
            t.label
        } else {
            seq!['-'] + t.label
        },
        major: t.major,
    }
}

/// The ticks of the linear core of a symmetric-log scale.
pub open spec fn symlog_core(lo: int, hi: int, lin_threshold: int, max_ticks: int) -> Seq<TickView> {
    let core_lo = greater(lo, -lin_threshold);
    let core_hi = lesser(hi, lin_threshold);
    if core_lo <= core_hi {
        linear_ticks_view(core_lo, core_hi, core_budget(max_ticks), Separation::Auto).ticks.map_values(
            |t: TickView| core_tick(t, lin_threshold),
        )
    } else {
        Seq::empty()
    }
}

/// The ticks of the positive wing of a symmetric-log scale.
pub open spec fn symlog_positive(hi: int, base: int, lin_threshold: int, include_minor: bool) -> Seq<
    TickView,
> {
    if hi > lin_threshold {
        log_ticks_view(lin_threshold, hi, base, include_minor).ticks
    } else {
        Seq::empty()
    }
}

/// The ticks of the negative wing of a symmetric-log scale.
pub open spec fn symlog_negative(lo: int, base: int, lin_threshold: int, include_minor: bool) -> Seq<
    TickView,
> {
    if lo < -lin_threshold {
        log_ticks_view(lin_threshold, -lo, base, include_minor).ticks.map_values(
            |t: TickView| mirrored_tick(t),
        )
    } else {
        Seq::empty()
    }
}

/// The three segments of a symmetric-log scale one after the other: the
/// linear core, the positive wing and the negative wing.
pub open spec fn symlog_segments(
    min: int,
    max: int,
    base: int,
    lin_threshold: int,
    include_minor: bool,
    max_ticks: int,
) -> Seq<TickView> {
    let lo = lesser(min, max);
    let hi = greater(min, max);
    symlog_core(lo, hi, lin_threshold, max_ticks) + symlog_positive(
        hi,
        base,
        lin_threshold,
        include_minor,
    ) + symlog_negative(lo, base, lin_threshold, include_minor)
}

/// The ticks of a symmetric-log scale over `min` and `max`: none where the
/// scale cannot be laid out, else the three segments in ascending order, with
/// one tick left of every value.
pub open spec fn symlog_ticks_view(
    min: int,
    max: int,
    base: int,
    lin_threshold: int,
    include_minor: bool,
    max_ticks: int,
) -> TickSetView {
    if symlog_valid(base, lin_threshold) {
        TickSetView {
            step: None,
            ticks: deduped(
                sorted_by_value(
                    symlog_segments(min, max, base, lin_threshold, include_minor, max_ticks),
                ),
            ),
        }
    } else {
        no_ticks()
    }
}

/// The ticks for a range under the settings of a [`TickSpec`].
pub open spec fn ticks_view(min: int, max: int, spec: TickSpec) -> TickSetView {
    match spec.scale {
        Scale::Linear => linear_ticks_view(min, max, spec.max_ticks as int, spec.separation),
        Scale::Log { base, include_minor } => log_ticks_view(min, max, base as int, include_minor),
        Scale::SymLog { base, lin_threshold, include_minor } => symlog_ticks_view(
            min,
            max,
            base as int,
            lin_threshold as int,
            include_minor,
            spec.max_ticks as int,
        ),
    }
}

/// Putting a tick into an ascending sequence at the place behind the ticks
/// that are not above it.
proof fn lemma_inserted_at(s: Seq<TickView>, t: TickView, pos: int)
    requires
        0 <= pos <= s.len(),
        pos > 0 ==> s[pos - 1].value <= t.value,
        forall|j: int| pos <= j < s.len() ==> s[j].value > t.value,
    ensures
        inserted_by_value(s, t) == s.insert(pos, t),
    decreases s.len() - pos,
{
    if s.len() == 0 {
        assert(s.insert(pos, t) =~= seq![t]);
    } else if pos == s.len() {
        assert(s.insert(pos, t) =~= s.push(t));
    } else {
        lemma_inserted_at(s.drop_last(), t, pos);
        assert(s.insert(pos, t) =~= s.drop_last().insert(pos, t).push(s.last()));
    }
}

/// The step of a linear scale is positive.
pub proof fn lemma_chosen_step_positive(min: int, max: int, max_ticks: int, separation: Separation)
    ensures
        chosen_step(min, max, max_ticks, separation) >= 1,
{
    let span = crate::common::spacing_high(min, max) - crate::common::spacing_low(min, max);
    let parts = crate::common::linear_parts(max_ticks);
    crate::common::lemma_rough_step_bounds(span, parts);
    crate::common::lemma_nice_is_round(crate::common::rough_step(span, parts), true);
    crate::fixed::lemma_decade_brackets(crate::common::rough_step(span, parts));
}

/// Neighbouring ticks of a linear scale differ by exactly the step.
pub proof fn lemma_linear_ticks_evenly_spaced(
    min: int,
    max: int,
    max_ticks: int,
    separation: Separation,
    i: int,
)
    requires
        0 <= i,
        i + 1 < linear_count(min, max, max_ticks, separation),
    ensures
        ({
            let set = linear_ticks_view(min, max, max_ticks, separation);
            &&& set.step == Some(chosen_step(min, max, max_ticks, separation))
            &&& set.ticks[i + 1].value - set.ticks[i].value == chosen_step(
                min,
                max,
                max_ticks,
                separation,
            )
        }),
{
    let step = chosen_step(min, max, max_ticks, separation);
    let k = first_multiple(min, max, max_ticks, separation) + i;
    assert((k + 1) * step - k * step == step) by (nonlinear_arith);
}

/// Under automatic spacing a linear scale has at least one tick, its first
/// tick is not above the smaller bound and its last tick is not below the
/// larger bound, whatever the order in which the bounds are given.
pub proof fn lemma_linear_ticks_bracket(min: int, max: int, max_ticks: int, separation: Separation)
    requires
        !(separation matches Separation::Value(v) && v > 0),
    ensures
        ({
            let ticks = linear_ticks_view(min, max, max_ticks, separation).ticks;
            &&& ticks.len() >= 1
            &&& ticks.first().value <= lesser(min, max)
            &&& greater(min, max) <= ticks.last().value
        }),
{
    lemma_chosen_step_positive(min, max, max_ticks, separation);
    let step = linear_step(min, max, max_ticks);
    let low = crate::common::spacing_low(min, max);
    let high = crate::common::spacing_high(min, max);
    let f = crate::fixed::quot_floor(low, step);
    let c = crate::fixed::quot_ceil(high, step);
    crate::fixed::lemma_round_of_multiple(f, step);
    crate::fixed::lemma_round_of_multiple(c, step);
    crate::fixed::lemma_floor_bounds(low, step);
    crate::fixed::lemma_ceil_bounds(high, step);
    assert(f <= c) by (nonlinear_arith)
        requires
            f * step <= c * step,
            step > 0,
    ;
    let count = linear_count(min, max, max_ticks, separation);
    assert(count == c - f + 1);
    assert(f + (count - 1) == c);
}

/// The ticks of a linear scale do not depend on the order in which the
/// bounds are given.
pub proof fn lemma_linear_ticks_either_order(
    min: int,
    max: int,
    max_ticks: int,
    separation: Separation,
)
    ensures
        linear_ticks_view(min, max, max_ticks, separation) == linear_ticks_view(
            max,
            min,
            max_ticks,
            separation,
        ),
{
}

/// A logarithmic scale has no ticks where the base is not above one or the
/// larger bound is not positive; a symmetric-log scale has none where the
/// base is not above one or the threshold is below one.
pub proof fn lemma_no_ticks_without_valid_scale(
    min: int,
    max: int,
    base: int,
    lin_threshold: int,
    include_minor: bool,
    max_ticks: int,
)
    ensures
        base <= SCALE || greater(min, max) <= 0 ==> log_ticks_view(min, max, base, include_minor)
            == no_ticks(),
        base <= SCALE || lin_threshold < SCALE ==> symlog_ticks_view(
            min,
            max,
            base,
            lin_threshold,
            include_minor,
            max_ticks,
        ) == no_ticks(),
{
}

/// Two tick sets that both meet the contract of tick generation for the same
/// range and the same settings hold the same ticks and the same step.
pub proof fn lemma_ticks_repeatable(first: TickSet, second: TickSet, min: int, max: int, spec: TickSpec)
    requires
        first@ == ticks_view(min, max, spec),
        second@ == ticks_view(min, max, spec),
    ensures
        first@ == second@,
        first@.ticks.len() == second@.ticks.len(),
        forall|i: int|
            0 <= i < first@.ticks.len() ==> first@.ticks[i] == (#[trigger] second@.ticks[i]),
{
}

/// Whether every tick of a sequence has a value above zero.
pub open spec fn all_positive(s: Seq<TickView>) -> bool {
    forall|i: int| 0 <= i < s.len() ==> (#[trigger] s[i]).value > 0
}

/// Inserting a tick of positive value among ticks of positive value leaves
/// all values positive.
proof fn lemma_inserted_positive(s: Seq<TickView>, t: TickView)
    requires
        all_positive(s),
        t.value > 0,
    ensures
        all_positive(inserted_by_value(s, t)),
        inserted_by_value(s, t).len() == s.len() + 1,
    decreases s.len(),
{
    if s.len() > 0 && s.last().value > t.value {
        lemma_inserted_positive(s.drop_last(), t);
    }
}

/// Sorting ticks of positive value leaves all values positive.
pub proof fn lemma_sorted_positive(s: Seq<TickView>)
    requires
        all_positive(s),
    ensures
        all_positive(sorted_by_value(s)),
        sorted_by_value(s).len() == s.len(),
    decreases s.len(),
{
    if s.len() > 0 {
        lemma_sorted_positive(s.drop_last());
        lemma_inserted_positive(sorted_by_value(s.drop_last()), s.last());
    }
}

/// The ticks of a logarithmic scale have positive values.
pub proof fn lemma_log_ticks_positive(min: int, max: int, base: int, include_minor: bool)
    ensures
        all_positive(log_ticks_view(min, max, base, include_minor).ticks),
{
    let low = lesser(min, max);
    let high = greater(min, max);
    if log_valid(base, high) {
        let majors = log_majors(base, low, high);
        let minors = log_minors(base, low, high);
        let pred = in_log_range(low, high);
        let candidates = log_candidates(low, high, base, include_minor);
        assert forall|i: int| 0 <= i < candidates.len() implies (#[trigger] candidates[i]).value
            > 0 by {
            if i < majors.len() {
                let whole = Seq::new(
                    crate::common::log_exp_count(base, low, high),
                    crate::common::major_candidate(base, low),
                );
                whole.lemma_filter_pred(pred, i);
            } else {
                let whole = Seq::new(
                    (crate::common::log_exp_count(base, low, high) * crate::common::minor_width(
                        base,
                    )) as nat,
                    crate::common::minor_candidate(base, low),
                );
                whole.lemma_filter_pred(pred, i - majors.len());
            }
        }
        lemma_sorted_positive(candidates);
    }
}

/// The ticks in ascending order of value; ticks of equal value keep their
/// order.
pub fn sort_ticks(ticks: Vec<Tick>) -> (r: Vec<Tick>)
    ensures
        tick_views(r@) == sorted_by_value(tick_views(ticks@)),
{
    let mut out: Vec<Tick> = Vec::new();
    let n: usize = ticks.len();
    let mut i: usize = 0;
    let ghost all = tick_views(ticks@);
    assert(all.take(0) =~= Seq::<TickView>::empty());
    while i < n
        invariant
            i <= n == ticks.len(),
            all == tick_views(ticks@),
            tick_views(out@) == sorted_by_value(all.take(i as int)),
            out.len() == i,
        decreases n - i,
    {
        let t: Tick = ticks[i].clone();
        let mut pos: usize = out.len();
        while pos > 0 && out[pos - 1].value > t.value
            invariant
                pos <= out.len(),
                forall|j: int| pos <= j < out.len() ==> out[j].value > t.value,
            decreases pos,
        {
            pos = pos - 1;
        }
        proof {
            let s = tick_views(out@);
            lemma_inserted_at(s, t@, pos as int);
            assert(all.take(i + 1).drop_last() =~= all.take(i as int));
            assert(all.take(i + 1).last() == t@);
        }
        let ghost before = tick_views(out@);
        out.insert(pos, t);
        assert(tick_views(out@) =~= before.insert(pos as int, t@));
        i = i + 1;
    }
    assert(all.take(n as int) =~= all);
    out
}

/// The ticks without those that have the value of the tick kept before them.
pub fn dedup_ticks(ticks: Vec<Tick>) -> (r: Vec<Tick>)
    ensures
        tick_views(r@) == deduped(tick_views(ticks@)),
{
    let mut out: Vec<Tick> = Vec::new();
    let n: usize = ticks.len();
    let mut i: usize = 0;
    let ghost all = tick_views(ticks@);
    assert(all.take(0) =~= Seq::<TickView>::empty());
    while i < n
        invariant
            i <= n == ticks.len(),
            all == tick_views(ticks@),
            tick_views(out@) == deduped(all.take(i as int)),
        decreases n - i,
    {
        proof {
            assert(all.take(i + 1).drop_last() =~= all.take(i as int));
            assert(all.take(i + 1).last() == ticks[i as int]@);
        }
        let len: usize = out.len();
        let ghost before = tick_views(out@);
        if !(len > 0 && out[len - 1].value == ticks[i].value) {
            let t: Tick = ticks[i].clone();
            out.push(t);
            assert(tick_views(out@) =~= before.push(ticks[i as int]@));
        }
        i = i + 1;
    }
    assert(all.take(n as int) =~= all);
    out
}

/// Appends copies of the ticks of `more`.
fn extend_ticks(ticks: &mut Vec<Tick>, more: &Vec<Tick>)
    ensures
        tick_views(final(ticks)@) == tick_views(old(ticks)@) + tick_views(more@),
{
    let ghost head = tick_views(ticks@);
    let ghost tail = tick_views(more@);
    let n: usize = more.len();
    let mut i: usize = 0;
    assert(head + tail.take(0) =~= head);
    while i < n
        invariant
            i <= n == more.len(),
            tail == tick_views(more@),
            tick_views(ticks@) == head + tail.take(i as int),
        decreases n - i,
    {
        let ghost before = tick_views(ticks@);
        ticks.push(more[i].clone());
        assert(tick_views(ticks@) =~= before.push(tail[i as int]));
        assert(head + tail.take(i + 1) =~= (head + tail.take(i as int)).push(tail[i as int]));
        i = i + 1;
    }
    assert(tail.take(n as int) =~= tail);
}

/// The major ticks of a logarithmic scale at the given values.
fn major_ticks_of(values: &Vec<i64>) -> (r: Vec<Tick>)
    ensures
        tick_views(r@) == values@.map_values(|v: i64| v as int).map_values(
            |v: int| major_tick(v),
        ),
{
    let ghost want = values@.map_values(|v: i64| v as int).map_values(|v: int| major_tick(v));
    let mut out: Vec<Tick> = Vec::new();
    let n: usize = values.len();
    let mut i: usize = 0;
    assert(tick_views(out@) =~= want.take(0));
    while i < n
        invariant
            i <= n == values.len(),
            want == values@.map_values(|v: i64| v as int).map_values(|v: int| major_tick(v)),
            tick_views(out@) == want.take(i as int),
        decreases n - i,
    {
        let v: i64 = values[i];
        let ghost before = tick_views(out@);
        let tick = Tick { value: v, label: format_log_label(v), major: true };
        assert(tick@ == want[i as int]);
        out.push(tick);
        assert(tick_views(out@) =~= before.push(want[i as int]));
        assert(want.take(i + 1) =~= want.take(i as int).push(want[i as int]));
        i = i + 1;
    }
    assert(want.take(n as int) =~= want);
    out
}

/// The minor ticks of a logarithmic scale at the given values.
fn minor_ticks_of(values: &Vec<i64>) -> (r: Vec<Tick>)
    ensures
        tick_views(r@) == values@.map_values(|v: i64| v as int).map_values(
            |v: int| minor_tick(v),
        ),
{
    let ghost want = values@.map_values(|v: i64| v as int).map_values(|v: int| minor_tick(v));
    let mut out: Vec<Tick> = Vec::new();
    let n: usize = values.len();
    let mut i: usize = 0;
    assert(tick_views(out@) =~= want.take(0));
    while i < n
        invariant
            i <= n == values.len(),
            want == values@.map_values(|v: i64| v as int).map_values(|v: int| minor_tick(v)),
            tick_views(out@) == want.take(i as int),
        decreases n - i,
    {
        let v: i64 = values[i];
        let ghost before = tick_views(out@);
        let tick = Tick { value: v, label: String::new(), major: false };
        assert(tick@ == want[i as int]);
        out.push(tick);
        assert(tick_views(out@) =~= before.push(want[i as int]));
        assert(want.take(i + 1) =~= want.take(i as int).push(want[i as int]));
        i = i + 1;
    }
    assert(want.take(n as int) =~= want);
    out
}

/// The ticks of a linear core: copies of the given ticks, major at zero and
/// at the threshold on either side.
fn core_ticks_of(ticks: &Vec<Tick>, lin_threshold: i64) -> (r: Vec<Tick>)
    requires
        lin_threshold >= SCALE,
    ensures
        tick_views(r@) == tick_views(ticks@).map_values(
            |t: TickView| core_tick(t, lin_threshold as int),
        ),
{
    let ghost want = tick_views(ticks@).map_values(
        |t: TickView| core_tick(t, lin_threshold as int),
    );
    let mut out: Vec<Tick> = Vec::new();
    let n: usize = ticks.len();
    let mut i: usize = 0;
    assert(tick_views(out@) =~= want.take(0));
    while i < n
        invariant
            i <= n == ticks.len(),
            lin_threshold >= SCALE,
            want == tick_views(ticks@).map_values(
                |t: TickView| core_tick(t, lin_threshold as int),
            ),
            tick_views(out@) == want.take(i as int),
        decreases n - i,
    {
        let t: &Tick = &ticks[i];
        let at_threshold: bool = t.value == lin_threshold || (t.value < 0 && t.value
            == -lin_threshold);
        let ghost before = tick_views(out@);
        let tick = Tick {
            value: t.value,
            label: t.label.clone(),
            major: t.value == 0 || at_threshold,
        };
        assert(tick@ == want[i as int]);
        out.push(tick);
        assert(tick_views(out@) =~= before.push(want[i as int]));
        assert(want.take(i + 1) =~= want.take(i as int).push(want[i as int]));
        i = i + 1;
    }
    assert(want.take(n as int) =~= want);
    out
}

/// The ticks of a positive wing seen from the negative side.
fn mirrored_ticks_of(ticks: &Vec<Tick>) -> (r: Vec<Tick>)
    requires
        all_positive(tick_views(ticks@)),
    ensures
        tick_views(r@) == tick_views(ticks@).map_values(|t: TickView| mirrored_tick(t)),
{
    let ghost want = tick_views(ticks@).map_values(|t: TickView| mirrored_tick(t));
    let mut out: Vec<Tick> = Vec::new();
    let n: usize = ticks.len();
    let mut i: usize = 0;
    assert(tick_views(out@) =~= want.take(0));
    while i < n
        invariant
            i <= n == ticks.len(),
            all_positive(tick_views(ticks@)),
            want == tick_views(ticks@).map_values(|t: TickView| mirrored_tick(t)),
            tick_views(out@) == want.take(i as int),
        decreases n - i,
    {
        let t: &Tick = &ticks[i];
        assert(tick_views(ticks@)[i as int].value > 0);
        let label: String = if t.label.as_str().is_empty() {
            String::new()
        } else {
            proof {
                reveal_strlit("-");
            }
            let mut text = String::from_str("-");
            text.append(t.label.as_str());
            text
        };
        assert(label@ =~= mirrored_tick(t@).label);
        let ghost before = tick_views(out@);
        let tick = Tick { value: -t.value, label, major: t.major };
        assert(tick@ == want[i as int]);
        out.push(tick);
        assert(tick_views(out@) =~= before.push(want[i as int]));
        assert(want.take(i + 1) =~= want.take(i as int).push(want[i as int]));
        i = i + 1;
    }
    assert(want.take(n as int) =~= want);
    out
}

impl TickSet {
    /// The ticks for the range from `min` to `max` under the given
    /// settings.
    #[must_use]
    pub fn generate_ticks(min: i64, max: i64, spec: TickSpec) -> (r: Self)
        requires
            in_domain(min as int),
            in_domain(max as int),
        ensures
            r@ == ticks_view(min as int, max as int, spec),
    {
        match spec.scale {
            Scale::Linear => Self::linear_ticks(min, max, spec),
            Scale::Log { base, include_minor } => Self::log_ticks(min, max, base, include_minor),
            Scale::SymLog { base, lin_threshold, include_minor } => Self::symlog_ticks(
                min,
                max,
                base,
                lin_threshold,
                include_minor,
                spec.max_ticks,
            ),
        }
    }

    /// The ticks of a logarithmic scale over `min` and `max`.
    pub fn log_ticks(min: i64, max: i64, base: i64, include_minor: bool) -> (r: Self)
        requires
            in_domain(min as int),
            in_domain(max as int),
        ensures
            r@ == log_ticks_view(min as int, max as int, base as int, include_minor),
            all_positive(r@.ticks),
    {
        proof {
            lemma_log_ticks_positive(min as int, max as int, base as int, include_minor);
        }
        match log_spacing(min, max, base, include_minor) {
            Some((_, _, major_values, minor_values)) => {
                let mut ticks: Vec<Tick> = major_ticks_of(&major_values);
                match minor_values {
                    Some(values) => {
                        let minors: Vec<Tick> = minor_ticks_of(&values);
                        extend_ticks(&mut ticks, &minors);
                    },
                    None => {},
                }
                let sorted = sort_ticks(ticks);
                TickSet { step: None, ticks: sorted }
            },
            None => {
                let r = TickSet { step: None, ticks: Vec::new() };
                assert(r@.ticks =~= Seq::<TickView>::empty());
                r
            },
        }
    }

    /// The ticks of a symmetric-log scale over `min` and `max`.
    pub fn symlog_ticks(
        min: i64,
        max: i64,
        base: i64,
        lin_threshold: i64,
        include_minor: bool,
        max_ticks: usize,
    ) -> (r: Self)
        requires
            in_domain(min as int),
            in_domain(max as int),
        ensures
            r@ == symlog_ticks_view(
                min as int,
                max as int,
                base as int,
                lin_threshold as int,
                include_minor,
                max_ticks as int,
            ),
    {
        let lo: i64 = if min < max {
            min
        } else {
            max
        };
        let hi: i64 = if min < max {
            max
        } else {
            min
        };
        if base <= SCALE || lin_threshold < SCALE {
            let r = TickSet { step: None, ticks: Vec::new() };
            assert(r@.ticks =~= Seq::<TickView>::empty());
            return r;
        }
        let mut ticks: Vec<Tick> = Vec::new();
        assert(tick_views(ticks@) =~= Seq::<TickView>::empty());
        let core_lo: i64 = if lo > -lin_threshold {
            lo
        } else {
            -lin_threshold
        };
        let core_hi: i64 = if hi < lin_threshold {
            hi
        } else {
            lin_threshold
        };
        if core_lo <= core_hi {
            let budget: usize = if max_ticks < 3 {
                3
            } else if max_ticks > 7 {
                7
            } else {
                max_ticks
            };
            let core = Self::linear_ticks(
                core_lo,
                core_hi,
                TickSpec { scale: Scale::Linear, max_ticks: budget, separation: Separation::Auto },
            );
            ticks = core_ticks_of(&core.ticks, lin_threshold);
        }
        let ghost core_want = symlog_core(
            lo as int,
            hi as int,
            lin_threshold as int,
            max_ticks as int,
        );
        assert(tick_views(ticks@) == core_want);
        if hi > lin_threshold {
            let pos = Self::log_ticks(lin_threshold, hi, base, include_minor);
            extend_ticks(&mut ticks, &pos.ticks);
        } else {
            assert(tick_views(ticks@) + Seq::<TickView>::empty() =~= tick_views(ticks@));
        }
        let ghost pos_want = symlog_positive(
            hi as int,
            base as int,
            lin_threshold as int,
            include_minor,
        );
        assert(tick_views(ticks@) == core_want + pos_want);
        if lo < -lin_threshold {
            let neg = Self::log_ticks(lin_threshold, -lo, base, include_minor);
            let mirrored: Vec<Tick> = mirrored_ticks_of(&neg.ticks);
            extend_ticks(&mut ticks, &mirrored);
        } else {
            assert(tick_views(ticks@) + Seq::<TickView>::empty() =~= tick_views(ticks@));
        }
        let sorted = sort_ticks(ticks);
        let merged = dedup_ticks(sorted);
        TickSet { step: None, ticks: merged }
    }

    /// The ticks of a linear scale over `min` and `max`.
    pub fn linear_ticks(min: i64, max: i64, spec: TickSpec) -> (r: Self)
        requires
            in_domain(min as int),
            in_domain(max as int),
        ensures
            r@ == linear_ticks_view(min as int, max as int, spec.max_ticks as int, spec.separation),
    {
        let (val_min, val_max, auto_step) = linear_spacing(min, max, spec.max_ticks);
        let step: i64 = match spec.separation {
            Separation::Value(v) => if v > 0 {
                v
            } else {
                auto_step
            },
            Separation::Auto => auto_step,
        };
        let k0: i128 = div_round(val_min as i128, step as i128);
        let k1: i128 = div_round(val_max as i128, step as i128);
        let dec: usize = decimals_for_step(step);
        let mut ticks: Vec<Tick> = Vec::new();
        let mut k: i128 = k0;
        let ghost want = linear_ticks_view(
            min as int,
            max as int,
            spec.max_ticks as int,
            spec.separation,
        );
        while k <= k1
            invariant
                step > 0,
                k0 <= k <= k1 + 1 || (k1 < k0 && k == k0),
                k0 == quot_round(val_min as int, step as int),
                k1 == quot_round(val_max as int, step as int),
                -40 * COORD_MAX < val_min,
                val_max < 40 * COORD_MAX,
                dec == step_decimals(step as int),
                -crate::fixed::WIDE_MAX <= k1 <= crate::fixed::WIDE_MAX,
                tick_views(ticks@) =~= Seq::new(
                    (k - k0) as nat,
                    |i: int| linear_tick(k0 + i, step as int),
                ),
            decreases k1 - k + 1,
        {
            proof {
                lemma_multiple_bounds(val_min as int, val_max as int, step as int, k as int);
            }
            let value: i64 = (k * (step as i128)) as i64;
            let tick = Tick { value, label: format_tick(value, dec), major: true };
            assert(tick@ == linear_tick(k as int, step as int));
            let ghost before = tick_views(ticks@);
            ticks.push(tick);
            assert(tick_views(ticks@) =~= before.push(linear_tick(k as int, step as int)));
            k = k + 1;
        }
        let r = TickSet { step: Some(step), ticks };
        assert(r@.ticks =~= want.ticks);
        r
    }
}

} // verus!
