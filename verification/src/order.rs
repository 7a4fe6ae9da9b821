//! What sorting and deduplication do to a sequence of ticks, and the sign
//! symmetry of a symmetric-log scale that follows from it.
//!
//! The tool is the first tick of a given value. Sorting keeps ticks of equal
//! value in their order, and deduplication keeps the first tick of every run of
//! equal values. So the ticks that are left after both, one for every value
//! and in ascending order, are the first ticks of their values in the sequence
//! that went in.

use vstd::prelude::*;
use crate::fixed::{lemma_floor_bounds, lemma_round_of_multiple, quot_floor, SCALE};
use crate::line::Separation;
use crate::ticks::{
    chosen_step, core_budget, deduped, first_multiple, inserted_by_value, is_ascending,
    is_strictly_ascending, lemma_chosen_step_positive, lemma_log_ticks_positive, linear_count,
    log_ticks_view, mirrored_tick, sorted_by_value, symlog_core, symlog_negative, symlog_positive,
    symlog_segments, symlog_ticks_view, symlog_valid, ticks_view, Scale, TickSpec, TickView,
};

verus! {

/// The first tick of a sequence with the given value, if there is one.
pub open spec fn first_with_value(s: Seq<TickView>, x: int) -> Option<TickView>
    decreases s.len(),
{
    if s.len() == 0 {
        None
    } else {
        match first_with_value(s.drop_last(), x) {
            Some(t) => Some(t),
            None => if s.last().value == x {
                Some(s.last())
            } else {
                None
            },
        }
    }
}

/// The first of two options that holds a tick.
pub open spec fn or_else(a: Option<TickView>, b: Option<TickView>) -> Option<TickView> {
    match a {
        Some(t) => Some(t),
        None => b,
    }
}

/// The tick `t` as an option, if it has the value `x`.
pub open spec fn if_value(t: TickView, x: int) -> Option<TickView> {
    if t.value == x {
        Some(t)
    } else {
        None
    }
}

/// The first tick of a value in a sequence with one more tick at its end.
pub proof fn lemma_first_push(s: Seq<TickView>, t: TickView, x: int)
    ensures
        first_with_value(s.push(t), x) == or_else(first_with_value(s, x), if_value(t, x)),
{
    assert(s.push(t).drop_last() =~= s);
}

/// The first tick of a value in two sequences one after the other.
pub proof fn lemma_first_concat(a: Seq<TickView>, b: Seq<TickView>, x: int)
    ensures
        first_with_value(a + b, x) == or_else(first_with_value(a, x), first_with_value(b, x)),
    decreases b.len(),
{
    if b.len() == 0 {
        assert(a + b =~= a);
    } else {
        lemma_first_concat(a, b.drop_last(), x);
        assert((a + b).drop_last() =~= a + b.drop_last());
    }
}

/// A sequence without a tick of a value has no first tick of that value.
pub proof fn lemma_first_none(s: Seq<TickView>, x: int)
    requires
        forall|i: int| 0 <= i < s.len() ==> (#[trigger] s[i]).value != x,
    ensures
        first_with_value(s, x).is_none(),
    decreases s.len(),
{
    if s.len() > 0 {
        lemma_first_none(s.drop_last(), x);
    }
}

/// A sequence with a tick of a value has a first tick of that value.
pub proof fn lemma_first_some(s: Seq<TickView>, i: int)
    requires
        0 <= i < s.len(),
    ensures
        first_with_value(s, s[i].value).is_some(),
    decreases s.len(),
{
    if i < s.len() - 1 {
        lemma_first_some(s.drop_last(), i);
    }
}

/// The first tick of a value is a tick of the sequence and has that value.
pub proof fn lemma_first_member(s: Seq<TickView>, x: int) -> (i: int)
    requires
        first_with_value(s, x).is_some(),
    ensures
        0 <= i < s.len(),
        first_with_value(s, x) == Some(s[i]),
        s[i].value == x,
    decreases s.len(),
{
    if first_with_value(s.drop_last(), x).is_some() {
        lemma_first_member(s.drop_last(), x)
    } else {
        s.len() - 1
    }
}

/// In a strictly ascending sequence every tick is the first of its value.
pub proof fn lemma_first_unique(s: Seq<TickView>, i: int)
    requires
        is_strictly_ascending(s),
        0 <= i < s.len(),
    ensures
        first_with_value(s, s[i].value) == Some(s[i]),
    decreases s.len(),
{
    if i < s.len() - 1 {
        lemma_first_unique(s.drop_last(), i);
    } else {
        lemma_first_none(s.drop_last(), s[i].value);
    }
}

/// Inserting a tick by value changes no first tick against putting it at the
/// end.
pub proof fn lemma_first_inserted(s: Seq<TickView>, t: TickView, x: int)
    ensures
        first_with_value(inserted_by_value(s, t), x) == first_with_value(s.push(t), x),
    decreases s.len(),
{
    if s.len() > 0 && s.last().value > t.value {
        let head = s.drop_last();
        lemma_first_inserted(head, t, x);
        lemma_first_push(inserted_by_value(head, t), s.last(), x);
        lemma_first_push(head, t, x);
        lemma_first_push(s, t, x);
        assert(head.push(s.last()) =~= s);
        lemma_first_push(head, s.last(), x);
    } else if s.len() == 0 {
        assert(seq![t] =~= s.push(t));
    }
}

/// Sorting changes no first tick.
pub proof fn lemma_first_sorted(s: Seq<TickView>, x: int)
    ensures
        first_with_value(sorted_by_value(s), x) == first_with_value(s, x),
    decreases s.len(),
{
    if s.len() > 0 {
        let head = s.drop_last();
        lemma_first_sorted(head, x);
        lemma_first_inserted(sorted_by_value(head), s.last(), x);
        lemma_first_push(sorted_by_value(head), s.last(), x);
    }
}

/// The test that a tick has the value `x`.
pub open spec fn has_value(x: int) -> spec_fn(TickView) -> bool {
    |t: TickView| t.value == x
}

/// The ticks of a sequence that have the value `x`, in their order.
pub open spec fn with_value(s: Seq<TickView>, x: int) -> Seq<TickView> {
    s.filter(has_value(x))
}

/// Inserting a tick by value changes the ticks of no value, nor their order,
/// against putting it at the end.
pub proof fn lemma_inserted_keeps_each_value(s: Seq<TickView>, t: TickView, x: int)
    ensures
        with_value(inserted_by_value(s, t), x) == with_value(s.push(t), x),
    decreases s.len(),
{
    if s.len() > 0 && s.last().value > t.value {
        let head = s.drop_last();
        let last = s.last();
        lemma_inserted_keeps_each_value(head, t, x);
        crate::common::lemma_filter_push(inserted_by_value(head, t), last, has_value(x));
        crate::common::lemma_filter_push(head, t, has_value(x));
        crate::common::lemma_filter_push(s, t, has_value(x));
        assert(head.push(last) =~= s);
        crate::common::lemma_filter_push(head, last, has_value(x));
    } else if s.len() == 0 {
        assert(seq![t] =~= s.push(t));
    }
}

/// Sorting is stable: for every value, the sorted sequence holds the ticks of
/// that value that the sequence holds, in the same order. With the ascending
/// order of the values this fixes the sorted sequence.
pub proof fn lemma_sorted_keeps_each_value(s: Seq<TickView>, x: int)
    ensures
        with_value(sorted_by_value(s), x) == with_value(s, x),
        is_ascending(sorted_by_value(s)),
    decreases s.len(),
{
    lemma_sorted_ascending(s);
    if s.len() > 0 {
        let head = s.drop_last();
        lemma_sorted_keeps_each_value(head, x);
        lemma_inserted_keeps_each_value(sorted_by_value(head), s.last(), x);
        crate::common::lemma_filter_push(sorted_by_value(head), s.last(), has_value(x));
        crate::common::lemma_filter_push(head, s.last(), has_value(x));
        assert(head.push(s.last()) =~= s);
    } else {
        assert(with_value(s, x) =~= Seq::<TickView>::empty());
    }
}

/// What deduplication keeps ends with a tick of the value that the sequence
/// ends with.
pub proof fn lemma_deduped_last(s: Seq<TickView>)
    requires
        s.len() > 0,
    ensures
        deduped(s).len() > 0,
        deduped(s).last().value == s.last().value,
{
}

/// Deduplication changes no first tick.
pub proof fn lemma_first_deduped(s: Seq<TickView>, x: int)
    ensures
        first_with_value(deduped(s), x) == first_with_value(s, x),
    decreases s.len(),
{
    if s.len() > 0 {
        let head = s.drop_last();
        let kept = deduped(head);
        lemma_first_deduped(head, x);
        if kept.len() > 0 && kept.last().value == s.last().value {
            if s.last().value == x {
                lemma_first_some(kept, kept.len() - 1);
            }
        } else {
            lemma_first_push(kept, s.last(), x);
        }
    }
}

/// Inserting a tick by value keeps a sequence ascending.
pub proof fn lemma_inserted_ascending(s: Seq<TickView>, t: TickView)
    requires
        is_ascending(s),
    ensures
        is_ascending(inserted_by_value(s, t)),
        inserted_by_value(s, t).len() == s.len() + 1,
        forall|i: int|
            0 <= i < s.len() + 1 ==> (#[trigger] inserted_by_value(s, t)[i]).value == t.value || (
            exists|j: int| 0 <= j < s.len() && s[j].value == inserted_by_value(s, t)[i].value),
    decreases s.len(),
{
    let r = inserted_by_value(s, t);
    if s.len() > 0 && s.last().value > t.value {
        let head = s.drop_last();
        assert(is_ascending(head));
        lemma_inserted_ascending(head, t);
        let inner = inserted_by_value(head, t);
        assert forall|i: int, j: int| 0 <= i < j < r.len() implies r[i].value <= r[j].value by {
            if j == r.len() - 1 {
                if inner[i].value != t.value {
                    let w = choose|w: int| 0 <= w < head.len() && head[w].value == inner[i].value;
                    assert(s[w].value <= s[s.len() - 1].value);
                }
            }
        }
        assert forall|i: int| 0 <= i < s.len() + 1 implies (#[trigger] r[i]).value == t.value || (
        exists|j: int| 0 <= j < s.len() && s[j].value == r[i].value) by {
            if i == r.len() - 1 {
                assert(s[s.len() - 1].value == r[i].value);
            } else if inner[i].value != t.value {
                let w = choose|w: int| 0 <= w < head.len() && head[w].value == inner[i].value;
                assert(s[w].value == r[i].value);
            }
        }
    } else if s.len() > 0 {
        assert forall|i: int| 0 <= i < s.len() + 1 implies (#[trigger] r[i]).value == t.value || (
        exists|j: int| 0 <= j < s.len() && s[j].value == r[i].value) by {
            if i < s.len() {
                assert(s[i].value == r[i].value);
            }
        }
    }
}

/// A sorted sequence is ascending.
pub proof fn lemma_sorted_ascending(s: Seq<TickView>)
    ensures
        is_ascending(sorted_by_value(s)),
    decreases s.len(),
{
    if s.len() > 0 {
        lemma_sorted_ascending(s.drop_last());
        lemma_inserted_ascending(sorted_by_value(s.drop_last()), s.last());
    }
}

/// Deduplication makes an ascending sequence strictly ascending.
pub proof fn lemma_deduped_strict(s: Seq<TickView>)
    requires
        is_ascending(s),
    ensures
        is_strictly_ascending(deduped(s)),
    decreases s.len(),
{
    if s.len() > 0 {
        let head = s.drop_last();
        assert(is_ascending(head));
        lemma_deduped_strict(head);
        let kept = deduped(head);
        if !(kept.len() > 0 && kept.last().value == s.last().value) {
            let r = kept.push(s.last());
            if head.len() > 0 {
                lemma_deduped_last(head);
                assert(head[head.len() - 1].value <= s[s.len() - 1].value);
            }
            assert forall|i: int, j: int| 0 <= i < j < r.len() implies r[i].value
                < r[j].value by {
                if j == r.len() - 1 && i < kept.len() - 1 {
                    assert(kept[i].value < kept[kept.len() - 1].value);
                }
            }
        }
    }
}

/// The ticks of a sequence after sorting and deduplication go strictly up,
/// and each of them is the first tick of its value in the sequence; every
/// value of the sequence is still there.
pub proof fn lemma_sort_dedup_keeps_first(s: Seq<TickView>)
    ensures
        is_strictly_ascending(deduped(sorted_by_value(s))),
        forall|x: int|
            first_with_value(deduped(sorted_by_value(s)), x) == #[trigger] first_with_value(s, x),
        forall|i: int|
            0 <= i < deduped(sorted_by_value(s)).len() ==> first_with_value(
                s,
                (#[trigger] deduped(sorted_by_value(s))[i]).value,
            ) == Some(deduped(sorted_by_value(s))[i]),
{
    let r = deduped(sorted_by_value(s));
    lemma_sorted_ascending(s);
    lemma_deduped_strict(sorted_by_value(s));
    assert forall|x: int| first_with_value(r, x) == #[trigger] first_with_value(s, x) by {
        lemma_first_deduped(sorted_by_value(s), x);
        lemma_first_sorted(s, x);
    }
    assert forall|i: int| 0 <= i < r.len() implies first_with_value(s, (#[trigger] r[i]).value)
        == Some(r[i]) by {
        lemma_first_unique(r, i);
    }
}

/// The linear core of a symmetric-log scale that reaches beyond the threshold
/// on both sides is symmetric about zero: its values go strictly up, the tick
/// as far from the end as another is from the start has the opposite value,
/// and it is the mirror image of that other tick where the value is at least
/// one unit.
pub proof fn lemma_core_symmetric(lo: int, hi: int, lin_threshold: int, max_ticks: int)
    requires
        lin_threshold >= SCALE,
        lo <= -lin_threshold,
        lin_threshold <= hi,
    ensures
        ({
            let core = symlog_core(lo, hi, lin_threshold, max_ticks);
            &&& is_strictly_ascending(core)
            &&& forall|j: int|
                0 <= j < core.len() ==> (#[trigger] core[core.len() - 1 - j]).value == -core[j].value
            &&& forall|j: int|
                0 <= j < core.len() && core[j].value >= SCALE ==> #[trigger] core[core.len() - 1
                    - j] == mirrored_tick(core[j])
        }),
{
    let thr = lin_threshold;
    let budget = core_budget(max_ticks);
    let core = symlog_core(lo, hi, thr, max_ticks);
    let step = crate::common::linear_step(-thr, thr, budget);
    lemma_chosen_step_positive(-thr, thr, budget, Separation::Auto);
    let f = quot_floor(-thr, step);
    lemma_floor_bounds(-thr, step);
    lemma_round_of_multiple(f, step);
    lemma_round_of_multiple(-f, step);
    assert(f < 0) by (nonlinear_arith)
        requires
            f * step <= -thr,
            thr > 0,
            step > 0,
    ;
    let n = linear_count(-thr, thr, budget, Separation::Auto);
    assert(first_multiple(-thr, thr, budget, Separation::Auto) == f);
    assert(n == -2 * f + 1);
    assert(core.len() == n);
    let d = crate::label::step_decimals(step) as int;
    assert forall|i: int, j: int| 0 <= i < j < core.len() implies core[i].value
        < core[j].value by {
        assert((f + i) * step < (f + j) * step) by (nonlinear_arith)
            requires
                i < j,
                step > 0,
        ;
    }
    assert forall|j: int| 0 <= j < core.len() implies (#[trigger] core[core.len() - 1 - j]).value
        == -core[j].value by {
        assert((f + (n - 1 - j)) * step == -((f + j) * step)) by (nonlinear_arith)
            requires
                n == -2 * f + 1,
        ;
    }
    assert forall|j: int| 0 <= j < core.len() && core[j].value >= SCALE implies #[trigger] core[core.len()
        - 1 - j] == mirrored_tick(core[j]) by {
        let v = (f + j) * step;
        assert((f + (n - 1 - j)) * step == -v) by (nonlinear_arith)
            requires
                n == -2 * f + 1,
                v == (f + j) * step,
        ;
        crate::label::lemma_unit_rounds_to_nonzero(v, d);
        crate::label::lemma_tick_label_mirrored(v, d);
        crate::label::lemma_tick_label_nonempty(v, d);
        let a = core[core.len() - 1 - j];
        let b = mirrored_tick(core[j]);
        assert(a.value == b.value);
        assert(a.label == b.label);
        assert(a.major == b.major);
    }
}

/// A symmetric-log scale over a range that is symmetric about zero and
/// reaches beyond the threshold is sign-symmetric: with every tick beyond the
/// threshold it holds the mirror image of that tick, which has the opposite
/// value, the same rank and, where the tick has a label, that label behind a
/// minus sign.
pub proof fn lemma_symlog_sign_symmetric(
    reach: int,
    base: int,
    lin_threshold: int,
    include_minor: bool,
    max_ticks: int,
    i: int,
) -> (j: int)
    requires
        symlog_valid(base, lin_threshold),
        reach > lin_threshold,
        0 <= i < symlog_ticks_view(
            -reach,
            reach,
            base,
            lin_threshold,
            include_minor,
            max_ticks,
        ).ticks.len(),
        symlog_ticks_view(-reach, reach, base, lin_threshold, include_minor, max_ticks).ticks[i].value
            > lin_threshold,
    ensures
        ({
            let ticks = symlog_ticks_view(
                -reach,
                reach,
                base,
                lin_threshold,
                include_minor,
                max_ticks,
            ).ticks;
            &&& 0 <= j < ticks.len()
            &&& ticks[j] == mirrored_tick(ticks[i])
            &&& ticks[j].value == -ticks[i].value
        }),
{
    let thr = lin_threshold;
    let all = symlog_segments(-reach, reach, base, thr, include_minor, max_ticks);
    let r = deduped(sorted_by_value(all));
    let t = r[i];
    let v = t.value;
    lemma_sort_dedup_keeps_first(all);
    assert(first_with_value(all, v) == Some(t));
    let core = symlog_core(-reach, reach, thr, max_ticks);
    let pos = symlog_positive(reach, base, thr, include_minor);
    let negm = symlog_negative(-reach, base, thr, include_minor);
    let wing = log_ticks_view(thr, reach, base, include_minor).ticks;
    assert(all == core + pos + negm);
    assert(pos == wing);
    assert(negm.len() == wing.len());
    assert forall|k: int| 0 <= k < wing.len() implies #[trigger] negm[k] == mirrored_tick(
        wing[k],
    ) by {}
    lemma_log_ticks_positive(thr, reach, base, include_minor);
    lemma_first_concat(core + pos, negm, v);
    lemma_first_concat(core, pos, v);
    lemma_first_concat(core + pos, negm, -v);
    lemma_first_concat(core, pos, -v);
    assert forall|k: int| 0 <= k < negm.len() implies (#[trigger] negm[k]).value != v by {
        assert(wing[k].value > 0);
    }
    lemma_first_none(negm, v);
    assert forall|k: int| 0 <= k < pos.len() implies (#[trigger] pos[k]).value != -v by {
        assert(wing[k].value > 0);
    }
    lemma_first_none(pos, -v);
    lemma_first_mirrored(wing, negm, v);
    lemma_core_symmetric(-reach, reach, thr, max_ticks);
    let u = mirrored_tick(t);
    if first_with_value(core, v).is_some() {
        let j0 = lemma_first_member(core, v);
        assert(core[j0] == t);
        let j1 = core.len() - 1 - j0;
        assert(core[j1] == mirrored_tick(core[j0]));
        lemma_first_unique(core, j1);
        assert(first_with_value(all, -v) == Some(u));
    } else {
        if first_with_value(core, -v).is_some() {
            let j1 = lemma_first_member(core, -v);
            let j0 = core.len() - 1 - j1;
            assert(core[core.len() - 1 - j1].value == -core[j1].value);
            lemma_first_some(core, j0);
        }
        assert(first_with_value(pos, v) == Some(t));
        assert(first_with_value(all, -v) == Some(u));
    }
    assert(first_with_value(r, -v) == first_with_value(all, -v));
    lemma_first_member(r, -v)
}

/// The ticks of every scale come in ascending order of value, and only a
/// linear scale has a step.
pub proof fn lemma_ticks_ascending(min: int, max: int, spec: TickSpec)
    ensures
        is_ascending(ticks_view(min, max, spec).ticks),
        ticks_view(min, max, spec).step is Some <==> spec.scale is Linear,
{
    match spec.scale {
        Scale::Linear => {
            let step = chosen_step(min, max, spec.max_ticks as int, spec.separation);
            let k0 = first_multiple(min, max, spec.max_ticks as int, spec.separation);
            lemma_chosen_step_positive(min, max, spec.max_ticks as int, spec.separation);
            let ticks = ticks_view(min, max, spec).ticks;
            assert forall|i: int, j: int| 0 <= i < j < ticks.len() implies ticks[i].value
                <= ticks[j].value by {
                assert((k0 + i) * step <= (k0 + j) * step) by (nonlinear_arith)
                    requires
                        i < j,
                        step > 0,
                ;
            }
        },
        Scale::Log { base, include_minor } => {
            let low = crate::common::lesser(min, max);
            let high = crate::common::greater(min, max);
            if crate::common::log_valid(base as int, high) {
                lemma_sorted_ascending(
                    crate::ticks::log_candidates(low, high, base as int, include_minor),
                );
            }
        },
        Scale::SymLog { base, lin_threshold, include_minor } => {
            if symlog_valid(base as int, lin_threshold as int) {
                lemma_sort_dedup_keeps_first(
                    symlog_segments(
                        min,
                        max,
                        base as int,
                        lin_threshold as int,
                        include_minor,
                        spec.max_ticks as int,
                    ),
                );
            }
        },
    }
}

/// The first tick of a value among mirrored ticks is the mirror image of the
/// first tick of the opposite value.
pub proof fn lemma_first_mirrored(s: Seq<TickView>, m: Seq<TickView>, x: int)
    requires
        m.len() == s.len(),
        forall|i: int| 0 <= i < s.len() ==> #[trigger] m[i] == mirrored_tick(s[i]),
    ensures
        first_with_value(m, -x) == match first_with_value(s, x) {
            Some(t) => Some(mirrored_tick(t)),
            None => None,
        },
    decreases s.len(),
{
    if s.len() > 0 {
        assert(m.last() == mirrored_tick(s.last()));
        lemma_first_mirrored(s.drop_last(), m.drop_last(), x);
    }
}

} // verus!
