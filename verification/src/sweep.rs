use vstd::prelude::*;
use vstd::arithmetic::div_mod::{
    lemma_fundamental_div_mod,
    lemma_fundamental_div_mod_converse,
    lemma_div_is_ordered,
    lemma_mod_pos_bound,
};

verus! {

/// One measurement of the benchmark: the particle count of a run and the
/// average wall-clock cost of one timestep of that run, in microseconds.
#[derive(Clone, Copy, PartialEq, Eq, Structural, Debug)]
pub struct TimingRecord {
    pub nb_atoms: usize,
    pub runtime_micros: u128,
}

/// The particle count of the `k`-th run of the sweep: sizes ascend from
/// `step` to `max` in increments of `step`, each repeated `runs` times.
pub open spec fn spec_sweep_size(k: int, step: int, runs: int) -> int {
    (k / runs + 1) * step
}

/// Law: the sweep visits its particle counts in ascending order.
pub proof fn lemma_sweep_ascending(step: int, runs: int, k1: int, k2: int)
    requires
        0 < step,
        0 < runs,
        0 <= k1 <= k2,
    ensures
        spec_sweep_size(k1, step, runs) <= spec_sweep_size(k2, step, runs),
{
    lemma_div_is_ordered(k1, k2, runs);
    assert((k1 / runs + 1) * step <= (k2 / runs + 1) * step) by (nonlinear_arith)
        requires
            step > 0,
            k1 / runs <= k2 / runs,
    ;
}

/// The particle counts of the whole sweep, one entry per run, in execution
/// order. A zero increment or a zero repetition count yields an empty sweep.
pub fn sweep_plan(step: usize, max: usize, runs: usize) -> (r: Vec<usize>)
    ensures
        step > 0 ==> r@.len() == (max as int / step as int) * runs as int,
        step == 0 ==> r@.len() == 0,
        forall|k: int|
            0 <= k < r@.len() ==> r@[k] as int == spec_sweep_size(k, step as int, runs as int),
        forall|k: int| 0 <= k < r@.len() ==> step <= #[trigger] r@[k] <= max,
{
    let mut r: Vec<usize> = Vec::new();
    if step == 0 {
        return r;
    }
    let count: usize = max / step;
    proof {
        lemma_fundamental_div_mod(max as int, step as int);
        lemma_mod_pos_bound(max as int, step as int);
        assert(count as int * step as int <= max as int) by (nonlinear_arith)
            requires
                max as int == step as int * (max as int / step as int) + max as int % step as int,
                count as int == max as int / step as int,
                max as int % step as int >= 0,
        ;
    }
    let mut c: usize = 0;
    while c < count
        invariant
            step >= 1,
            count as int == max as int / step as int,
            count as int * step as int <= max as int,
            c <= count,
            r@.len() == c as int * runs as int,
            forall|k: int|
                0 <= k < r@.len() ==> r@[k] as int == spec_sweep_size(k, step as int, runs as int),
            forall|k: int| 0 <= k < r@.len() ==> step <= #[trigger] r@[k] <= max,
        decreases count - c,
    {
        proof {
            assert((c + 1) as int * step as int <= count as int * step as int) by (nonlinear_arith)
                requires
                    c + 1 <= count as int,
                    step >= 1,
            ;
            assert(step as int <= (c + 1) as int * step as int) by (nonlinear_arith)
                requires
                    step >= 1,
                    c >= 0,
            ;
        }
        let size: usize = (c + 1) * step;
        let mut j: usize = 0;
        while j < runs
            invariant
                step >= 1,
                count as int == max as int / step as int,
                count as int * step as int <= max as int,
                c < count,
                j <= runs,
                size as int == (c + 1) as int * step as int,
                step <= size <= max,
                r@.len() == c as int * runs as int + j as int,
                forall|k: int|
                    0 <= k < r@.len() ==> r@[k] as int == spec_sweep_size(
                        k,
                        step as int,
                        runs as int,
                    ),
                forall|k: int| 0 <= k < r@.len() ==> step <= #[trigger] r@[k] <= max,
            decreases runs - j,
        {
            r.push(size);
            proof {
                let k = c as int * runs as int + j as int;
                lemma_fundamental_div_mod_converse(k, runs as int, c as int, j as int);
            }
            j = j + 1;
        }
        c = c + 1;
        proof {
            assert((c - 1) as int * runs as int + runs as int == c as int * runs as int)
                by (nonlinear_arith);
        }
    }
    r
}

} // verus!
