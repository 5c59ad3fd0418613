//! The fixed-timestep scheduler: simulation updates run at a constant rate,
//! drained from an accumulator of elapsed time, while rendering happens once
//! per loop iteration.
use vstd::prelude::*;

verus! {

#[verifier::external_type_specification]
#[verifier::external_body]
pub struct ExXoshiro256PlusPlus(rand_xoshiro::Xoshiro256PlusPlus);

/// The generator that `seed_from_u64` makes from `seed`.
pub uninterp spec fn seeded_from(seed: u64) -> rand_xoshiro::Xoshiro256PlusPlus;

/// Relies on rand_core's `SeedableRng::seed_from_u64` for rand_xoshiro's
/// `Xoshiro256PlusPlus`: the seed is expanded by SplitMix64, so the
/// generator depends on the seed alone.
#[verifier::external_body]
fn seeded_generator(seed: u64) -> (r: rand_xoshiro::Xoshiro256PlusPlus)
    ensures
        r == seeded_from(seed),
{
    rand::SeedableRng::seed_from_u64(seed)
}

/// What the update and render steps share: a pseudo-random generator,
/// reproducible from its seed.
pub struct EngineEnvironment {
    pub rand: rand_xoshiro::Xoshiro256PlusPlus,
}

impl EngineEnvironment {
    /// An environment whose generator is seeded with `seed`.
    pub fn new(seed: u64) -> (r: Self)
        ensures
            r.rand == seeded_from(seed),
    {
        EngineEnvironment { rand: seeded_generator(seed) }
    }
}

/// The most elapsed time, in nanoseconds, that one iteration accounts for;
/// a longer stall is cut to this so that it cannot set off a burst of updates.
pub const MAX_FRAME_NANOS: u64 = 100_000_000;

/// Nanoseconds in a second.
pub const NANOS_PER_SECOND: u64 = 1_000_000_000;

/// The length of one update in nanoseconds for `fps` updates per second:
/// 10^9 / fps, rounded to the nearest nanosecond (halves up).
pub open spec fn timestep_for(fps: int) -> int {
    (2 * NANOS_PER_SECOND + fps) / (2 * fps)
}

/// The elapsed time that one iteration accounts for: the time since the
/// previous one (none if the clock went back), at most `MAX_FRAME_NANOS`.
pub open spec fn clamped_elapsed(last: int, now: int) -> int {
    if now <= last {
        0
    } else if now - last > MAX_FRAME_NANOS {
        MAX_FRAME_NANOS as int
    } else {
        now - last
    }
}

/// Whether draining the accumulator `acc` (plus `dt`) by whole updates of
/// `tick` runs `n` updates and leaves `rest`: updates run while more than
/// one update's worth is accumulated.
pub open spec fn drains(acc: int, dt: int, tick: int, n: int, rest: int) -> bool {
    &&& n >= 0
    &&& n * tick + rest == acc + dt
    &&& 0 <= rest <= tick
    &&& (n > 0 ==> rest > 0)
}

/// What one loop iteration is to do.
#[derive(Debug, Clone, Copy, PartialEq, Eq, Structural)]
pub struct LoopStep {
    /// How many updates to run before rendering.
    pub updates: u64,
    /// The elapsed time handed to the render step, in nanoseconds.
    pub dt_nanos: u64,
}

/// The scheduler's clock state; all times in nanoseconds.
pub struct FixedTimestep {
    accumulator: u64,
    update_timestep: u64,
    last_time: u64,
}

impl FixedTimestep {
    /// The time accumulated and not yet simulated.
    pub closed spec fn accumulated(&self) -> int {
        self.accumulator as int
    }

    /// The length of one update.
    pub closed spec fn tick(&self) -> int {
        self.update_timestep as int
    }

    /// When the previous iteration began.
    pub closed spec fn last(&self) -> int {
        self.last_time as int
    }

    /// One update lasts between a nanosecond and a second, and never more
    /// than one update's worth stays accumulated between iterations.
    pub closed spec fn wf(&self) -> bool {
        &&& 0 < self.update_timestep <= NANOS_PER_SECOND
        &&& self.accumulator <= self.update_timestep
    }

    /// A scheduler for `update_fps` updates per second, started at `now`.
    /// A rate of zero is a configuration error and is not accepted; nor is a
    /// rate above one update per nanosecond.
    pub fn new(update_fps: usize, now: u64) -> (r: Self)
        requires
            0 < update_fps <= NANOS_PER_SECOND,
        ensures
            r.wf(),
            0 < r.tick() <= NANOS_PER_SECOND,
            r.tick() == timestep_for(update_fps as int),
            r.accumulated() == 0,
            r.last() == now,
    {
        let fps = update_fps as u64;
        assert((2 * NANOS_PER_SECOND + fps) / (2 * fps) >= 1) by (nonlinear_arith)
            requires
                0 < fps <= NANOS_PER_SECOND,
        ;
        assert((2 * NANOS_PER_SECOND + fps) / (2 * fps) <= NANOS_PER_SECOND) by (nonlinear_arith)
            requires
                0 < fps <= NANOS_PER_SECOND,
        ;
        let update_timestep = (2 * NANOS_PER_SECOND + fps) / (2 * fps);
        FixedTimestep { accumulator: 0, update_timestep, last_time: now }
    }

    /// The length of one update in nanoseconds.
    pub fn update_timestep(&self) -> (r: u64)
        ensures
            r == self.tick(),
    {
        self.update_timestep
    }

    /// Starts an iteration at `now`: adds the elapsed time, cut to
    /// `MAX_FRAME_NANOS`, to the accumulator and returns it.
    pub fn advance(&mut self, now: u64) -> (dt: u64)
        requires
            old(self).wf(),
        ensures
            dt == clamped_elapsed(old(self).last(), now as int),
            final(self).accumulated() == old(self).accumulated() + dt,
            final(self).tick() == old(self).tick(),
            final(self).last() == now,
    {
        let dt: u64 = if now <= self.last_time {
            0
        } else if now - self.last_time > MAX_FRAME_NANOS {
            MAX_FRAME_NANOS
        } else {
            now - self.last_time
        };
        self.last_time = now;
        self.accumulator = self.accumulator + dt;
        dt
    }

    /// Takes one update's worth out of the accumulator if more than that is
    /// accumulated; says whether it did.
    pub fn take_tick(&mut self) -> (r: bool)
        requires
            0 < old(self).tick(),
        ensures
            r == (old(self).accumulated() > old(self).tick()),
            final(self).accumulated() == if r {
                old(self).accumulated() - old(self).tick()
            } else {
                old(self).accumulated()
            },
            final(self).tick() == old(self).tick(),
            final(self).last() == old(self).last(),
    {
        if self.accumulator > self.update_timestep {
            self.accumulator = self.accumulator - self.update_timestep;
            true
        } else {
            false
        }
    }

    /// One iteration at `now`: accounts for the elapsed time and drains the
    /// accumulator by whole updates. Returns how many updates to run and the
    /// elapsed time to render with; the remainder stays for later iterations.
    pub fn next_loop(&mut self, now: u64) -> (r: LoopStep)
        requires
            old(self).wf(),
        ensures
            final(self).wf(),
            r.dt_nanos == clamped_elapsed(old(self).last(), now as int),
            drains(
                old(self).accumulated(),
                r.dt_nanos as int,
                old(self).tick(),
                r.updates as int,
                final(self).accumulated(),
            ),
            final(self).tick() == old(self).tick(),
            final(self).last() == now,
    {
        let ghost start = self.accumulated();
        let dt = self.advance(now);
        let mut updates: u64 = 0;
        loop
            invariant
                0 < self.tick() <= NANOS_PER_SECOND,
                self.tick() == old(self).tick(),
                self.last() == now,
                0 <= self.accumulated(),
                updates as int * self.tick() + self.accumulated() == start + dt,
                updates > 0 ==> self.accumulated() > 0,
                start + dt <= NANOS_PER_SECOND + MAX_FRAME_NANOS,
            ensures
                0 < self.tick() <= NANOS_PER_SECOND,
                self.tick() == old(self).tick(),
                self.last() == now,
                0 <= self.accumulated() <= self.tick(),
                updates as int * self.tick() + self.accumulated() == start + dt,
                updates > 0 ==> self.accumulated() > 0,
            decreases self.accumulated(),
        {
            let ghost tick = self.tick();
            assert(updates as int * tick <= NANOS_PER_SECOND + MAX_FRAME_NANOS);
            if !self.take_tick() {
                break;
            }
            assert((updates + 1) * tick == updates * tick + tick) by (nonlinear_arith);
            assert(updates <= NANOS_PER_SECOND + MAX_FRAME_NANOS) by (nonlinear_arith)
                requires
                    updates as int * tick <= NANOS_PER_SECOND + MAX_FRAME_NANOS,
                    tick > 0,
                    updates >= 0,
            ;
            updates = updates + 1;
        }
        LoopStep { updates, dt_nanos: dt }
    }
}

/// Updates and remainder after draining `acc` + `dt` by whole updates of `tick`.
pub open spec fn drain_spec(acc: int, dt: int, tick: int) -> (int, int) {
    if acc + dt <= tick {
        (0, acc + dt)
    } else {
        ((acc + dt - 1) / tick, acc + dt - (acc + dt - 1) / tick * tick)
    }
}

/// Draining is deterministic: `drains` holds of exactly one update count
/// and remainder, those of `drain_spec`.
pub proof fn lemma_drains_unique(acc: int, dt: int, tick: int, n: int, rest: int)
    requires
        tick > 0,
        acc >= 0,
        dt >= 0,
    ensures
        drains(acc, dt, tick, drain_spec(acc, dt, tick).0, drain_spec(acc, dt, tick).1),
        drains(acc, dt, tick, n, rest) ==> (n, rest) == drain_spec(acc, dt, tick),
{
    let a = acc + dt;
    if a > tick {
        let q = (a - 1) / tick;
        assert(q * tick <= a - 1 < q * tick + tick) by (nonlinear_arith)
            requires
                q == (a - 1) / tick,
                tick > 0,
                a > 0,
        ;
        assert(q >= 1) by (nonlinear_arith)
            requires
                q == (a - 1) / tick,
                tick > 0,
                a - 1 >= tick,
        ;
        if drains(acc, dt, tick, n, rest) {
            assert(n == q) by (nonlinear_arith)
                requires
                    n * tick + rest == a,
                    0 < rest <= tick,
                    q * tick <= a - 1 < q * tick + tick,
                    tick > 0,
            ;
        }
    } else {
        if drains(acc, dt, tick, n, rest) {
            if n > 0 {
                assert(n * tick >= tick) by (nonlinear_arith)
                    requires
                        n > 0,
                        tick > 0,
                ;
            }
        }
    }
}

/// Total updates and final remainder of a run of iterations with elapsed
/// times `deltas`, none of which is cut, starting from accumulator `acc`.
pub open spec fn run_updates(acc: int, deltas: Seq<int>, tick: int) -> (int, int)
    decreases deltas.len(),
{
    if deltas.len() == 0 {
        (0, acc)
    } else {
        let prev = run_updates(acc, deltas.drop_last(), tick);
        let step = drain_spec(prev.1, deltas.last(), tick);
        (prev.0 + step.0, step.1)
    }
}

/// The sum of `deltas`.
pub open spec fn total_time(deltas: Seq<int>) -> int
    decreases deltas.len(),
{
    if deltas.len() == 0 {
        0
    } else {
        total_time(deltas.drop_last()) + deltas.last()
    }
}

proof fn lemma_run_updates(acc: int, deltas: Seq<int>, tick: int)
    requires
        tick > 0,
        0 <= acc <= tick,
        forall|i: int| 0 <= i < deltas.len() ==> 0 <= #[trigger] deltas[i],
    ensures
        run_updates(acc, deltas, tick).0 * tick + run_updates(acc, deltas, tick).1 == acc
            + total_time(deltas),
        0 <= run_updates(acc, deltas, tick).0,
        0 <= run_updates(acc, deltas, tick).1 <= tick,
    decreases deltas.len(),
{
    if deltas.len() > 0 {
        let init = deltas.drop_last();
        assert forall|i: int| 0 <= i < init.len() implies 0 <= #[trigger] init[i] by {
            assert(init[i] == deltas[i]);
        }
        lemma_run_updates(acc, init, tick);
        let prev = run_updates(acc, init, tick);
        assert(deltas.last() == deltas[deltas.len() - 1]);
        lemma_drains_unique(prev.1, deltas.last(), tick, 0, 0);
        let step = drain_spec(prev.1, deltas.last(), tick);
        assert((prev.0 + step.0) * tick == prev.0 * tick + step.0 * tick) by (nonlinear_arith);
    }
}

/// However the elapsed time is split into iterations, none longer than
/// `MAX_FRAME_NANOS`, an empty accumulator and a total elapsed time `T` give
/// floor(T / tick) updates, or one fewer: the fraction of an update not yet
/// run stays accumulated.
pub proof fn lemma_update_count_depends_on_total_time(deltas: Seq<int>, tick: int)
    requires
        tick > 0,
        forall|i: int| 0 <= i < deltas.len() ==> 0 <= #[trigger] deltas[i] <= MAX_FRAME_NANOS,
    ensures
        total_time(deltas) / tick - 1 <= run_updates(0, deltas, tick).0 <= total_time(deltas)
            / tick,
{
    lemma_run_updates(0, deltas, tick);
    let n = run_updates(0, deltas, tick).0;
    let rest = run_updates(0, deltas, tick).1;
    let t = total_time(deltas);
    assert(t / tick - 1 <= n <= t / tick) by (nonlinear_arith)
        requires
            n * tick + rest == t,
            0 <= rest <= tick,
            tick > 0,
            n >= 0,
    ;
}

/// After a stall, however long, one iteration runs at most
/// floor((MAX_FRAME_NANOS as int) / tick) updates, given that what was accumulated
/// before, together with (MAX_FRAME_NANOS as int) % tick, is at most one update's
/// worth (true of an empty accumulator); and never more than one update
/// beyond that.
pub proof fn lemma_stall_is_bounded(acc: int, elapsed: int, tick: int, n: int, rest: int)
    requires
        tick > 0,
        0 <= acc <= tick,
        elapsed >= 0,
        drains(acc, clamped_elapsed(0, elapsed), tick, n, rest),
    ensures
        n <= (MAX_FRAME_NANOS as int) / tick + 1,
        acc + (MAX_FRAME_NANOS as int) % tick <= tick ==> n <= (MAX_FRAME_NANOS as int) / tick,
{
    let m = MAX_FRAME_NANOS as int;
    let dt = clamped_elapsed(0, elapsed);
    assert(dt <= m);
    let q = m / tick;
    let r = m % tick;
    assert(m == q * tick + r && 0 <= r < tick) by (nonlinear_arith)
        requires
            q == m / tick,
            r == m % tick,
            tick > 0,
    ;
    if n > 0 {
        assert(n * tick < acc + m);
        assert(n <= q + 1) by (nonlinear_arith)
            requires
                n * tick < acc + m,
                m == q * tick + r,
                r < tick,
                acc <= tick,
                tick > 0,
        ;
        if acc + r <= tick {
            assert(n <= q) by (nonlinear_arith)
                requires
                    n * tick < acc + m,
                    m == q * tick + r,
                    acc + r <= tick,
                    tick > 0,
            ;
        }
    }
}

proof fn lemma_iterations_prefix(accs: Seq<int>, dts: Seq<int>, ns: Seq<int>, tick: int, k: int)
    requires
        tick > 0,
        accs.len() == dts.len() + 1,
        ns.len() == dts.len(),
        accs[0] == 0,
        forall|i: int|
            0 <= i < dts.len() ==> #[trigger] drains(accs[i], dts[i], tick, ns[i], accs[i + 1]),
        0 <= k <= dts.len(),
    ensures
        total_time(ns.take(k)) * tick + accs[k] == total_time(dts.take(k)),
        0 <= accs[k] <= tick || k == 0,
    decreases k,
{
    if k > 0 {
        lemma_iterations_prefix(accs, dts, ns, tick, k - 1);
        assert(ns.take(k).drop_last() =~= ns.take(k - 1));
        assert(dts.take(k).drop_last() =~= dts.take(k - 1));
        let i = k - 1;
        assert(drains(accs[i], dts[i], tick, ns[i], accs[i + 1]));
        assert(i + 1 == k);
        assert((total_time(ns.take(k - 1)) + ns[k - 1]) * tick == total_time(ns.take(k - 1)) * tick
            + ns[k - 1] * tick) by (nonlinear_arith);
    }
}

/// Successive iterations of `FixedTimestep::next_loop` from an empty
/// accumulator, with elapsed times `dts` (none longer than `MAX_FRAME_NANOS`,
/// so none is cut), where iteration i starts with `accs[i]` accumulated, runs
/// `ns[i]` updates and leaves `accs[i + 1]`: the updates add up to
/// floor(T / tick), or one fewer, for the total elapsed time T, however T is
/// split into iterations.
pub proof fn lemma_successive_iterations(accs: Seq<int>, dts: Seq<int>, ns: Seq<int>, tick: int)
    requires
        tick > 0,
        accs.len() == dts.len() + 1,
        ns.len() == dts.len(),
        accs[0] == 0,
        forall|i: int| 0 <= i < dts.len() ==> 0 <= #[trigger] dts[i] <= MAX_FRAME_NANOS,
        forall|i: int|
            0 <= i < dts.len() ==> #[trigger] drains(accs[i], dts[i], tick, ns[i], accs[i + 1]),
    ensures
        total_time(dts) / tick - 1 <= total_time(ns) <= total_time(dts) / tick,
{
    let k = dts.len() as int;
    lemma_iterations_prefix(accs, dts, ns, tick, k);
    assert(ns.take(k) =~= ns);
    assert(dts.take(k) =~= dts);
    let n = total_time(ns);
    let t = total_time(dts);
    let rest = accs[k];
    assert(0 <= rest <= tick);
    assert(t / tick - 1 <= n <= t / tick) by (nonlinear_arith)
        requires
            n * tick + rest == t,
            0 <= rest <= tick,
            tick > 0,
    ;
}

} // verus!
