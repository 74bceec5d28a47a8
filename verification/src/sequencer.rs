use vstd::prelude::*;
use vstd::arithmetic::div_mod::{lemma_fundamental_div_mod, lemma_mod_pos_bound};
use vstd::arithmetic::power2::{
    pow2, lemma2_to64, lemma_pow2_pos, lemma_pow2_strictly_increases, lemma_pow2_unfold,
};
use vstd::layout::unsigned_int_max_values;
use crate::error::BenchError;

verus! {

/// The sum of the first `n` positive integers.
pub open spec fn triangular_number(n: nat) -> nat {
    n * (n + 1) / 2
}

/// The quotient of `a` by `b`, rounded up. `b` is positive.
pub open spec fn ceil_div(a: nat, b: nat) -> nat
    recommends
        b > 0,
{
    if a % b == 0 {
        a / b
    } else {
        a / b + 1
    }
}

/// The step `d` of a schedule of `n_samples` samples of `d, 2d, 3d, ...`
/// iterations that is planned to fill `duration_nanos`, where one iteration
/// takes `nanos_per_iter`: the budget divided by the cost of one iteration of
/// each of the schedule's `triangular_number(n_samples)` units, rounded up,
/// and held between 1 and `usize::MAX`. Where that cost is zero the step is the
/// largest there is, unless the budget is zero too.
pub open spec fn schedule_step(n_samples: nat, duration_nanos: nat, nanos_per_iter: nat) -> nat {
    let cost = nanos_per_iter * triangular_number(n_samples);
    let ideal = if cost > 0 {
        ceil_div(duration_nanos, cost)
    } else if duration_nanos > 0 {
        usize::MAX as nat
    } else {
        0
    };
    if ideal < 1 {
        1
    } else if ideal > usize::MAX {
        usize::MAX as nat
    } else {
        ideal
    }
}

/// The terms `term, 2 * term, 4 * term, ...` that fit in `usize`, in order.
pub open spec fn doubling_from(term: int) -> Seq<usize>
    decreases
        (if term <= usize::MAX {
            usize::MAX - term + 1
        } else {
            0
        }),
{
    if 1 <= term <= usize::MAX {
        seq![term as usize] + doubling_from(2 * term)
    } else {
        Seq::empty()
    }
}

/// The `count` multiples of `step` that begin with `first * step`.
pub open spec fn multiples_from(first: nat, count: nat, step: nat) -> Seq<usize> {
    Seq::new(count, |i: int| ((first + i) * step) as usize)
}

/// The sum of the counts.
pub open spec fn total_of(counts: Seq<usize>) -> nat
    decreases counts.len(),
{
    if counts.len() == 0 {
        0
    } else {
        counts[0] as nat + total_of(counts.skip(1))
    }
}

/// Whether a schedule of `n_samples` samples with this budget and cost per
/// iteration can be held in `usize`: its triangular number and its largest
/// sample.
pub open spec fn schedule_fits(n_samples: nat, duration_nanos: nat, nanos_per_iter: nat) -> bool {
    &&& triangular_number(n_samples) <= usize::MAX
    &&& n_samples * schedule_step(n_samples, duration_nanos, nanos_per_iter) <= usize::MAX
}

fn triangular_number_wide(n_samples: usize) -> (t: u128)
    ensures
        t == triangular_number(n_samples as nat),
{
    let n: u128 = n_samples as u128;
    assert(n * (n + 1) <= u128::MAX) by (nonlinear_arith)
        requires
            n <= 0xffff_ffff_ffff_ffff,
    ;
    n * (n + 1) / 2
}

/// The triangular number of `n_samples` and the step of the schedule that is
/// planned to fill `duration_nanos` at `nanos_per_iter` for each iteration.
pub fn triangular(n_samples: usize, duration_nanos: u128, nanos_per_iter: u128) -> (schedule: (
    usize,
    usize,
))
    requires
        triangular_number(n_samples as nat) <= usize::MAX,
    ensures
        schedule.0 == triangular_number(n_samples as nat),
        schedule.1 == schedule_step(
            n_samples as nat,
            duration_nanos as nat,
            nanos_per_iter as nat,
        ),
        schedule.1 >= 1,
{
    let wide = triangular_number_wide(n_samples);
    let step: usize = match nanos_per_iter.checked_mul(wide) {
        None => {
            proof {
                let cost = (nanos_per_iter as nat) * triangular_number(n_samples as nat);
                assert(duration_nanos < cost);
                assert((duration_nanos as nat) / cost == 0 && (duration_nanos as nat) % cost
                    == duration_nanos) by (nonlinear_arith)
                    requires
                        duration_nanos < cost,
                ;
            }
            1
        },
        Some(cost) => {
            if cost == 0 {
                if duration_nanos > 0 {
                    usize::MAX
                } else {
                    1
                }
            } else {
                let quotient = duration_nanos / cost;
                if quotient >= usize::MAX as u128 {
                    usize::MAX
                } else if duration_nanos % cost > 0 {
                    (quotient + 1) as usize
                } else if quotient == 0 {
                    1
                } else {
                    quotient as usize
                }
            }
        },
    };
    (wide as usize, step)
}

#[derive(Clone, Copy, Debug)]
enum Schedule {
    /// `upcoming` is the next term, if one is left.
    Doubling { upcoming: Option<usize> },
    /// The terms are `step, 2 * step, ..., n_samples * step`, and `yielded` of
    /// them have been handed out.
    Multiples { yielded: usize, n_samples: usize, step: usize },
}

/// A producer of iteration counts, one for each sample, handed out in order
/// and once. Its view is the sequence of counts that it has yet to hand out.
#[derive(Clone, Copy, Debug)]
pub struct Sequencer {
    schedule: Schedule,
}

impl View for Sequencer {
    type V = Seq<usize>;

    closed spec fn view(&self) -> Seq<usize> {
        match self.schedule {
            Schedule::Doubling { upcoming: Some(term) } => doubling_from(term as int),
            Schedule::Doubling { upcoming: None } => Seq::empty(),
            Schedule::Multiples { yielded, n_samples, step } => multiples_from(
                yielded as nat + 1,
                (n_samples - yielded) as nat,
                step as nat,
            ),
        }
    }
}

impl Sequencer {
    /// The invariant of the representation.
    pub closed spec fn wf(&self) -> bool {
        match self.schedule {
            Schedule::Doubling { upcoming: Some(term) } => term >= 1,
            Schedule::Doubling { upcoming: None } => true,
            Schedule::Multiples { yielded, n_samples, step } => {
                &&& yielded <= n_samples
                &&& n_samples * step <= usize::MAX
            },
        }
    }

    /// Whether a count is left.
    pub fn has_next(&self) -> (more: bool)
        requires
            self.wf(),
        ensures
            more == (self@.len() > 0),
    {
        self.peek().is_some()
    }

    /// The next count, which stays in the sequencer.
    pub fn peek(&self) -> (term: Option<usize>)
        requires
            self.wf(),
        ensures
            self@.len() == 0 ==> term.is_none(),
            self@.len() > 0 ==> term == Some(self@[0]),
    {
        match self.schedule {
            Schedule::Doubling { upcoming } => {
                proof {
                    if let Some(t) = upcoming {
                        assert(doubling_from(t as int) == seq![t] + doubling_from(2 * t));
                    }
                }
                upcoming
            },
            Schedule::Multiples { yielded, n_samples, step } => {
                if yielded < n_samples {
                    proof {
                        lemma_multiple_fits(yielded as nat + 1, n_samples as nat, step as nat);
                    }
                    Some((yielded + 1) * step)
                } else {
                    None
                }
            },
        }
    }

    /// Hands out the next count.
    pub fn next(&mut self) -> (term: Option<usize>)
        requires
            old(self).wf(),
        ensures
            final(self).wf(),
            old(self)@.len() == 0 ==> term.is_none() && final(self)@ == old(self)@,
            old(self)@.len() > 0 ==> term == Some(old(self)@[0]) && final(self)@ == old(self)@.skip(
                1,
            ),
    {
        match self.schedule {
            Schedule::Doubling { upcoming } => {
                match upcoming {
                    None => None,
                    Some(t) => {
                        let doubled = t.checked_mul(2);
                        self.schedule = Schedule::Doubling { upcoming: doubled };
                        proof {
                            assert(doubling_from(t as int) == seq![t] + doubling_from(2 * t));
                            assert(doubling_from(t as int).skip(1) =~= doubling_from(2 * t));
                        }
                        Some(t)
                    },
                }
            },
            Schedule::Multiples { yielded, n_samples, step } => {
                if yielded < n_samples {
                    proof {
                        lemma_multiple_fits(yielded as nat + 1, n_samples as nat, step as nat);
                    }
                    let reached: usize = yielded + 1;
                    self.schedule = Schedule::Multiples { yielded: reached, n_samples, step };
                    assert(old(self)@.skip(1) =~= final(self)@);
                    Some(reached * step)
                } else {
                    None
                }
            },
        }
    }
}

/// A multiple of `step` by no more than `n` is no more than `n * step`.
proof fn lemma_multiple_fits(k: nat, n: nat, step: nat)
    requires
        k <= n,
    ensures
        k * step <= n * step,
{
    assert(k * step <= n * step) by (nonlinear_arith)
        requires
            k <= n,
    ;
}

/// The warmup's sequencer: 1, 2, 4, 8 and so on, each term twice the one
/// before, for as long as the terms fit in `usize`.
pub fn exponential_iterations() -> (sequencer: Sequencer)
    ensures
        sequencer.wf(),
        sequencer@ == doubling_from(1),
        total_of(sequencer@) == usize::MAX,
{
    proof {
        lemma_exponential_total();
    }
    Sequencer { schedule: Schedule::Doubling { upcoming: Some(1) } }
}

/// The measurement's sequencer: `n_samples` counts `d, 2d, ..., n_samples * d`,
/// where `d` is the step of the schedule planned for this budget and cost per
/// iteration. Fails where the schedule cannot be held in `usize`.
pub fn triangular_iterations(n_samples: usize, duration_nanos: u128, nanos_per_iter: u128) -> (made:
    Result<Sequencer, BenchError>)
    ensures
        schedule_fits(n_samples as nat, duration_nanos as nat, nanos_per_iter as nat) ==> (made
            matches Ok(sequencer) && sequencer.wf() && sequencer@ == multiples_from(
            1,
            n_samples as nat,
            schedule_step(n_samples as nat, duration_nanos as nat, nanos_per_iter as nat),
        ) && total_of(sequencer@) == triangular_number(n_samples as nat) * schedule_step(
            n_samples as nat,
            duration_nanos as nat,
            nanos_per_iter as nat,
        )),
        !schedule_fits(n_samples as nat, duration_nanos as nat, nanos_per_iter as nat) ==> made
            == Err::<Sequencer, BenchError>(BenchError::ArithmeticOverflow),
{
    if triangular_number_wide(n_samples) > usize::MAX as u128 {
        return Err(BenchError::ArithmeticOverflow);
    }
    let (_total, step) = triangular(n_samples, duration_nanos, nanos_per_iter);
    if n_samples.checked_mul(step).is_none() {
        return Err(BenchError::ArithmeticOverflow);
    }
    proof {
        lemma_triangular_total(n_samples as nat, step as nat);
    }
    Ok(Sequencer { schedule: Schedule::Multiples { yielded: 0, n_samples, step } })
}

/// Term `k` of the exponential sequence, counted from zero, exists exactly
/// where `2^k` fits in `usize`, and is `2^k`.
pub proof fn lemma_exponential_terms(k: nat)
    ensures
        k < doubling_from(1).len() <==> pow2(k) <= usize::MAX,
        k < doubling_from(1).len() ==> doubling_from(1)[k as int] == pow2(k),
{
    lemma_doubling_terms(1, k);
    assert(1 * pow2(k) == pow2(k));
}

/// Term `k` of the sequence that doubles from `term` exists exactly where
/// `term * 2^k` fits in `usize`, and is `term * 2^k`.
pub proof fn lemma_doubling_terms(term: int, k: nat)
    requires
        term >= 1,
    ensures
        k < doubling_from(term).len() <==> term * pow2(k) <= usize::MAX,
        k < doubling_from(term).len() ==> doubling_from(term)[k as int] == term * pow2(k),
    decreases k,
{
    lemma_pow2_pos(k);
    if k == 0 {
        assert(pow2(0) == 1) by {
            lemma2_to64();
        }
        assert(term * 1 == term);
    } else {
        lemma_pow2_unfold(k);
        lemma_pow2_pos((k - 1) as nat);
        let rest = pow2((k - 1) as nat);
        assert(term * pow2(k) == (2 * term) * rest) by (nonlinear_arith)
            requires
                pow2(k) == 2 * rest,
        ;
        if term <= usize::MAX {
            lemma_doubling_terms(2 * term, (k - 1) as nat);
            assert(doubling_from(term) == seq![term as usize] + doubling_from(2 * term));
        } else {
            assert(term * pow2(k) >= term) by (nonlinear_arith)
                requires
                    pow2(k) >= 1,
                    term >= 1,
            ;
        }
    }
}

/// The exponential sequence has one term for each bit of `usize`.
pub proof fn lemma_exponential_length()
    ensures
        doubling_from(1).len() == usize::BITS,
{
    let bits = usize::BITS as nat;
    unsigned_int_max_values();
    assert(bits >= 1) by {
        lemma2_to64();
    }
    lemma_pow2_strictly_increases((bits - 1) as nat, bits);
    lemma_exponential_terms((bits - 1) as nat);
    lemma_exponential_terms(bits);
}

/// Where the schedule's units have a cost and the step was not cut off at
/// `usize::MAX`, the planned iterations take at least the budget, and with a
/// step of one less, if there is one, they would take less than the budget.
pub proof fn lemma_schedule_covers_budget(n_samples: nat, duration_nanos: nat, nanos_per_iter: nat)
    requires
        nanos_per_iter * triangular_number(n_samples) > 0,
        ceil_div(duration_nanos, nanos_per_iter * triangular_number(n_samples)) <= usize::MAX,
    ensures
        schedule_step(n_samples, duration_nanos, nanos_per_iter) * (nanos_per_iter
            * triangular_number(n_samples)) >= duration_nanos,
        schedule_step(n_samples, duration_nanos, nanos_per_iter) > 1 ==> (schedule_step(
            n_samples,
            duration_nanos,
            nanos_per_iter,
        ) - 1) * (nanos_per_iter * triangular_number(n_samples)) < duration_nanos,
{
    let cost: int = (nanos_per_iter * triangular_number(n_samples)) as int;
    let budget: int = duration_nanos as int;
    let quotient = budget / cost;
    let rest = budget % cost;
    let step: int = schedule_step(n_samples, duration_nanos, nanos_per_iter) as int;
    lemma_fundamental_div_mod(budget, cost);
    lemma_mod_pos_bound(budget, cost);
    assert(quotient >= 0) by (nonlinear_arith)
        requires
            budget == cost * quotient + rest,
            0 <= rest < cost,
            budget >= 0,
    ;
    if rest == 0 {
        if quotient == 0 {
            assert(step == 1);
            assert(step * cost >= budget) by (nonlinear_arith)
                requires
                    step == 1,
                    budget == cost * quotient + rest,
                    quotient == 0,
                    rest == 0,
                    cost > 0,
            ;
        } else {
            assert(step == quotient);
            assert(step * cost >= budget && (step - 1) * cost < budget) by (nonlinear_arith)
                requires
                    step == quotient,
                    budget == cost * quotient + rest,
                    rest == 0,
                    cost > 0,
            ;
        }
    } else {
        assert(step == quotient + 1);
        assert(step * cost >= budget && (step - 1) * cost < budget) by (nonlinear_arith)
            requires
                step == quotient + 1,
                budget == cost * quotient + rest,
                0 < rest < cost,
        ;
    }
}

/// The terms that double from `term` up to the end of `usize` add up to what
/// is left between `term` and that end, where `term` is a power of two.
pub proof fn lemma_doubling_total(term: int, exponent: nat)
    requires
        term >= 1,
        term * pow2(exponent) == usize::MAX + 1,
    ensures
        total_of(doubling_from(term)) == usize::MAX + 1 - term,
    decreases exponent,
{
    if exponent == 0 {
        assert(pow2(0) == 1) by {
            lemma2_to64();
        }
        assert(term * 1 == term);
        assert(doubling_from(term) =~= Seq::empty());
    } else {
        lemma_pow2_unfold(exponent);
        lemma_pow2_pos((exponent - 1) as nat);
        let rest = pow2((exponent - 1) as nat);
        assert(term * pow2(exponent) == (2 * term) * rest && term * pow2(exponent) >= 2 * term)
            by (nonlinear_arith)
            requires
                pow2(exponent) == 2 * rest,
                rest >= 1,
                term >= 1,
        ;
        lemma_doubling_total(2 * term, (exponent - 1) as nat);
        let terms = doubling_from(term);
        assert(terms == seq![term as usize] + doubling_from(2 * term));
        assert(terms.skip(1) =~= doubling_from(2 * term));
    }
}

/// The whole exponential sequence adds up to `usize::MAX`: a phase that
/// draws on it can count its iterations in `usize`.
pub proof fn lemma_exponential_total()
    ensures
        total_of(doubling_from(1)) == usize::MAX,
{
    unsigned_int_max_values();
    assert(1 * pow2(usize::BITS as nat) == pow2(usize::BITS as nat));
    lemma_doubling_total(1, usize::BITS as nat);
}

/// The `count` multiples of `step` from `first * step` on add up to `step`
/// times the sum of `first, first + 1, ...`, where the largest of them fits
/// in `usize`.
pub proof fn lemma_multiples_total(first: nat, count: nat, step: nat)
    requires
        first >= 1,
        (first + count - 1) * step <= usize::MAX,
    ensures
        total_of(multiples_from(first, count, step)) == step * (triangular_number(
            (first + count - 1) as nat,
        ) - triangular_number((first - 1) as nat)),
    decreases count,
{
    let terms = multiples_from(first, count, step);
    if count > 0 {
        lemma_multiples_total(first + 1, (count - 1) as nat, step);
        assert(terms.skip(1) =~= multiples_from(first + 1, (count - 1) as nat, step));
        lemma_multiple_fits(first, (first + count - 1) as nat, step);
        assert(terms[0] == first * step);
        assert(triangular_number(first) == triangular_number((first - 1) as nat) + first)
            by (nonlinear_arith)
            requires
                first >= 1,
        ;
        let top = triangular_number((first + count - 1) as nat);
        let low = triangular_number((first - 1) as nat);
        assert(first * step + step * (top - (low + first)) == step * (top - low))
            by (nonlinear_arith);
    } else {
        assert(step * 0 == 0);
    }
}

/// The counts of a triangular schedule add up to its step times the
/// triangular number of its samples.
pub proof fn lemma_triangular_total(n_samples: nat, step: nat)
    requires
        n_samples * step <= usize::MAX,
    ensures
        total_of(multiples_from(1, n_samples, step)) == triangular_number(n_samples) * step,
{
    lemma_multiples_total(1, n_samples, step);
    assert(triangular_number(0) == 0) by {
        assert(0nat * (0nat + 1) == 0) by (nonlinear_arith);
    }
    assert(step * (triangular_number(n_samples) - 0) == triangular_number(n_samples) * step)
        by (nonlinear_arith);
}

/// The triangular sequence holds `n_samples` terms, and term `i`, counted from
/// zero, is `(i + 1) * step`.
pub proof fn lemma_triangular_terms(n_samples: nat, step: nat, i: int)
    requires
        n_samples * step <= usize::MAX,
        0 <= i < n_samples,
    ensures
        multiples_from(1, n_samples, step).len() == n_samples,
        multiples_from(1, n_samples, step)[i] == (i + 1) * step,
{
    lemma_multiple_fits((i + 1) as nat, n_samples, step);
}

} // verus!
