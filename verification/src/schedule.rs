use vstd::prelude::*;
use vstd::arithmetic::div_mod::{lemma_fundamental_div_mod, lemma_fundamental_div_mod_converse};

verus! {

/// One phase of a Velocity Verlet timestep, as handed to the simulation kernel.
#[derive(Clone, Copy, PartialEq, Eq, Structural, Debug)]
pub enum StepKind {
    /// Predictor half-step: advance velocities by half a step using the
    /// forces of the previous positions, then advance the positions.
    Predict,
    /// Recompute forces and potential energy from the current positions.
    EvalForces,
    /// Corrector half-step: advance velocities by the second half-step,
    /// using the forces of the freshly updated positions.
    Correct,
}

/// The three phases of a single timestep, in the only order the scheme allows.
pub open spec fn spec_step_block() -> Seq<StepKind> {
    seq![StepKind::Predict, StepKind::EvalForces, StepKind::Correct]
}

/// The phase sequence of `t` consecutive timesteps.
pub open spec fn spec_schedule(t: nat) -> Seq<StepKind>
    decreases t,
{
    if t == 0 {
        Seq::empty()
    } else {
        spec_schedule((t - 1) as nat) + spec_step_block()
    }
}

/// The schedule of `t` timesteps holds exactly three phases per timestep.
pub proof fn lemma_schedule_len(t: nat)
    ensures
        spec_schedule(t).len() == 3 * t,
    decreases t,
{
    if t > 0 {
        lemma_schedule_len((t - 1) as nat);
    }
}

/// Each position of the schedule holds the phase its offset within the
/// enclosing timestep block dictates.
pub proof fn lemma_schedule_index(t: nat, k: int)
    requires
        0 <= k < 3 * t,
    ensures
        spec_schedule(t).len() == 3 * t,
        spec_schedule(t)[k] == (if k % 3 == 0 {
            StepKind::Predict
        } else if k % 3 == 1 {
            StepKind::EvalForces
        } else {
            StepKind::Correct
        }),
    decreases t,
{
    lemma_schedule_len(t);
    lemma_schedule_len((t - 1) as nat);
    if k < 3 * (t - 1) {
        lemma_schedule_index((t - 1) as nat, k);
    } else {
        let j = k - 3 * (t - 1);
        lemma_fundamental_div_mod_converse(k, 3, t - 1, j);
    }
}

/// Law: a predictor half-step is always followed immediately by a force
/// evaluation and only then by the corrector half-step, so the corrector
/// never consumes forces that predate the predictor's position update.
pub proof fn lemma_schedule_orders_force_refresh(t: nat, k: int)
    requires
        0 <= k < spec_schedule(t).len(),
        spec_schedule(t)[k] == StepKind::Predict,
    ensures
        k + 2 < spec_schedule(t).len(),
        spec_schedule(t)[k + 1] == StepKind::EvalForces,
        spec_schedule(t)[k + 2] == StepKind::Correct,
{
    lemma_schedule_len(t);
    lemma_schedule_index(t, k);
    let q = k / 3;
    lemma_fundamental_div_mod(k, 3);
    assert(k == 3 * q);
    assert(q < t) by (nonlinear_arith)
        requires
            3 * q < 3 * t,
    ;
    lemma_fundamental_div_mod_converse(k + 1, 3, q, 1);
    lemma_fundamental_div_mod_converse(k + 2, 3, q, 2);
    lemma_schedule_index(t, k + 1);
    lemma_schedule_index(t, k + 2);
}

/// Law: a corrector half-step is always immediately preceded by a force
/// evaluation, which in turn follows the predictor half-step: there is no
/// way to reach the corrector without refreshing the forces in between.
pub proof fn lemma_corrector_needs_fresh_forces(t: nat, k: int)
    requires
        0 <= k < spec_schedule(t).len(),
        spec_schedule(t)[k] == StepKind::Correct,
    ensures
        k >= 2,
        spec_schedule(t)[k - 1] == StepKind::EvalForces,
        spec_schedule(t)[k - 2] == StepKind::Predict,
{
    lemma_schedule_len(t);
    lemma_schedule_index(t, k);
    let q = k / 3;
    lemma_fundamental_div_mod(k, 3);
    assert(k == 3 * q + 2);
    lemma_fundamental_div_mod_converse(k - 1, 3, q, 1);
    lemma_fundamental_div_mod_converse(k - 2, 3, q, 0);
    lemma_schedule_index(t, k - 1);
    lemma_schedule_index(t, k - 2);
}

/// The phase sequence for `nb_timesteps` timesteps, as a vector the harness
/// walks in order.
pub fn step_schedule(nb_timesteps: usize) -> (r: Vec<StepKind>)
    ensures
        r@ == spec_schedule(nb_timesteps as nat),
{
    let mut r: Vec<StepKind> = Vec::new();
    let mut k: usize = 0;
    while k < nb_timesteps
        invariant
            k <= nb_timesteps,
            r@ == spec_schedule(k as nat),
        decreases nb_timesteps - k,
    {
        r.push(StepKind::Predict);
        r.push(StepKind::EvalForces);
        r.push(StepKind::Correct);
        k += 1;
        proof {
            assert(r@ =~= spec_schedule(k as nat));
        }
    }
    r
}

} // verus!
