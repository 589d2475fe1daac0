use vstd::prelude::*;
use crate::schedule::{StepKind, step_schedule};
use crate::sweep::TimingRecord;

verus! {

/// std::time::Instant, opaque to the verifier: a clock reading, carried
/// from the start of the timed interval to its end.
#[verifier::external_type_specification]
#[verifier::external_body]
pub struct ExInstant(std::time::Instant);

/// Relies on std::time::Instant::now: a reading of the monotonic clock.
/// Nothing is promised of the value; it depends on the moment of the call.
#[verifier::external_body]
fn instant_now() -> std::time::Instant {
    std::time::Instant::now()
}

/// Relies on std::time::Instant::elapsed: the wall-clock time since `start`.
/// Nothing is promised of the value; it depends on the moment of the call.
#[verifier::external_body]
fn elapsed_since(start: &std::time::Instant) -> std::time::Duration {
    start.elapsed()
}

/// Relies on std::time::Duration::as_micros: the duration in whole
/// microseconds. Nothing is promised of the value; it is as opaque as the
/// duration it comes from.
#[verifier::external_body]
fn duration_micros(d: &std::time::Duration) -> u128 {
    d.as_micros()
}

/// Average per-step cost of a timed run: the total elapsed microseconds
/// divided by the number of timesteps. A run with zero timesteps is a no-op
/// and reports zero cost.
pub fn average_micros(total: u128, steps: usize) -> (r: u128)
    ensures
        steps > 0 ==> r == total as int / steps as int,
        steps == 0 ==> r == 0,
{
    if steps == 0 {
        0
    } else {
        total / (steps as u128)
    }
}

/// Runs one timed benchmark: one untimed force evaluation to materialize the
/// initial forces, then `nb_timesteps` Velocity Verlet timesteps driven
/// through `kernel` in schedule order, bracketed by two clock readings.
/// Construction of the particle state and the warm-up evaluation stay
/// outside the timed interval. Returns the timing record of the run, the
/// elapsed microseconds averaged over the timesteps.
pub fn run_timed<K: Fn(StepKind)>(nb_atoms: usize, nb_timesteps: usize, kernel: K) -> (r:
    TimingRecord)
    requires
        forall|phase: StepKind| #[trigger] kernel.requires((phase,)),
    ensures
        r.nb_atoms == nb_atoms,
        nb_timesteps == 0 ==> r.runtime_micros == 0,
{
    kernel(StepKind::EvalForces);
    let sched = step_schedule(nb_timesteps);
    let start = instant_now();
    let mut k: usize = 0;
    while k < sched.len()
        invariant
            forall|phase: StepKind| #[trigger] kernel.requires((phase,)),
            k <= sched@.len(),
        decreases sched@.len() - k,
    {
        kernel(sched[k]);
        k = k + 1;
    }
    let d = elapsed_since(&start);
    let total = duration_micros(&d);
    let avg = average_micros(total, nb_timesteps);
    TimingRecord { nb_atoms, runtime_micros: avg }
}

} // verus!
