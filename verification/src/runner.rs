use vstd::prelude::*;
use crate::options::{Options, Scenario, ScenarioType};

verus! {

// ---------------------------------------------------------------------------
// The pacer: rate-control parameters derived once per worker, and the
// decision rules that multiplex scenario chains over the dispatcher.
// ---------------------------------------------------------------------------

/// How many scenarios repeat: they form the chain a session walks.
pub open spec fn repeating_count(scenarios: Seq<Scenario>) -> nat
    decreases scenarios.len(),
{
    if scenarios.len() == 0 {
        0
    } else {
        repeating_count(scenarios.drop_last()) + if scenarios.last().scenario_type
            is Repeating {
            1nat
        } else {
            0nat
        }
    }
}

/// The chain length used for pacing: at least one.
pub open spec fn effective_chain(s: nat) -> nat {
    if s < 1 {
        1
    } else {
        s
    }
}

/// The per-scenario-step rate: the target rate divided over the chain, at
/// least one.
pub open spec fn target_tps_spec(call_rate: u32, s: nat) -> int {
    let t = call_rate as int / effective_chain(s) as int;
    if t < 1 {
        1
    } else {
        t
    }
}

/// The batch size: one two-hundredth of the per-step rate, at least one.
pub open spec fn batch_size_spec(call_rate: u32, s: nat) -> int {
    let b = target_tps_spec(call_rate, s) / 200;
    if b < 1 {
        1
    } else {
        b
    }
}

/// The tick interval in nanoseconds: the batch spread over the per-step rate.
pub open spec fn interval_ns_spec(call_rate: u32, s: nat) -> int {
    batch_size_spec(call_rate, s) * 1_000_000_000 / target_tps_spec(call_rate, s)
}

/// The request budget: the target rate held for the whole duration.
pub open spec fn total_requests_spec(call_rate: u32, duration_ms: u64) -> int {
    call_rate as int * (duration_ms as int / 1000)
}

/// The iteration budget: the request budget split over batches and the
/// chain, rounded up.
pub open spec fn total_iterations_spec(call_rate: u32, duration_ms: u64, s: nat) -> int {
    let d = batch_size_spec(call_rate, s) * effective_chain(s) as int;
    let tr = total_requests_spec(call_rate, duration_ms);
    if tr % d == 0 {
        tr / d
    } else {
        tr / d + 1
    }
}

/// The rate-control parameters for one worker, derived once from the
/// configuration. The interval is in nanoseconds.
#[derive(Clone)]
pub struct RunParameter {
    pub target_tps: u32,
    pub batch_size: u32,
    pub interval: u64,
    pub total_requests: u64,
    pub total_iterations: u64,
    pub scenario_count: u32,
}

impl RunParameter {
    /// Derives the parameters from the configuration.
    pub fn new(options: &Options) -> (r: RunParameter)
        requires
            options.call_rate >= 1,
            options.scenarios@.len() <= u32::MAX,
            options.call_rate * (options.duration / 1000) <= u64::MAX,
        ensures
            r.target_tps == target_tps_spec(
                options.call_rate,
                repeating_count(options.scenarios@),
            ),
            r.batch_size == batch_size_spec(
                options.call_rate,
                repeating_count(options.scenarios@),
            ),
            r.interval == interval_ns_spec(
                options.call_rate,
                repeating_count(options.scenarios@),
            ),
            r.total_requests == total_requests_spec(options.call_rate, options.duration),
            r.total_iterations == total_iterations_spec(
                options.call_rate,
                options.duration,
                repeating_count(options.scenarios@),
            ),
            r.scenario_count == repeating_count(options.scenarios@),
    {
        let mut s: u32 = 0;
        let mut k: usize = 0;
        proof {
            assert(options.scenarios@.subrange(0, 0) =~= Seq::<Scenario>::empty());
        }
        while k < options.scenarios.len()
            invariant
                k <= options.scenarios@.len(),
                options.scenarios@.len() <= u32::MAX,
                s == repeating_count(options.scenarios@.subrange(0, k as int)),
                s <= k,
            decreases options.scenarios@.len() - k,
        {
            let ghost pre = options.scenarios@.subrange(0, k as int);
            let ghost cur = options.scenarios@.subrange(0, k as int + 1);
            proof {
                assert(cur.drop_last() =~= pre);
                assert(cur.last() == options.scenarios@[k as int]);
            }
            if matches!(options.scenarios[k].scenario_type, ScenarioType::Repeating) {
                s = s + 1;
            }
            k += 1;
        }
        assert(options.scenarios@.subrange(0, k as int) =~= options.scenarios@);

        let s_eff: u32 = if s < 1 {
            1
        } else {
            s
        };
        let rps = options.call_rate;
        let tps0 = rps / s_eff;
        let target_tps: u32 = if tps0 < 1 {
            1
        } else {
            tps0
        };
        let b0 = target_tps / 200;
        let batch_size: u32 = if b0 < 1 {
            1
        } else {
            b0
        };
        proof {
            assert(b0 <= 21474836) by (nonlinear_arith)
                requires
                    b0 == target_tps / 200,
                    target_tps <= 0xffff_ffffu32,
            ;
            assert((batch_size as int) * (s_eff as int) <= 21474836 * 0xffff_ffff)
                by (nonlinear_arith)
                requires
                    1 <= batch_size <= 21474836,
                    1 <= s_eff <= 0xffff_ffffu32,
            ;
        }
        let interval: u64 = (batch_size as u64) * 1_000_000_000u64 / (target_tps as u64);
        let duration_s: u64 = options.duration / 1000;
        let total_requests: u64 = (rps as u64) * duration_s;
        let d: u64 = (batch_size as u64) * (s_eff as u64);
        proof {
            assert(d >= 1) by (nonlinear_arith)
                requires
                    d == (batch_size as u64) * (s_eff as u64),
                    batch_size >= 1,
                    s_eff >= 1,
            ;
        }
        let total_iterations: u64 = if total_requests % d == 0 {
            total_requests / d
        } else {
            assert(d >= 2) by (nonlinear_arith)
                requires
                    d == (batch_size as u64) * (s_eff as u64),
                    batch_size >= 1,
                    s_eff >= 1,
                    total_requests % d != 0,
            ;
            assert(total_requests / d < u64::MAX) by (nonlinear_arith)
                requires
                    d >= 2,
            ;
            total_requests / d + 1
        };
        RunParameter {
            target_tps,
            batch_size,
            interval,
            total_requests,
            total_iterations,
            scenario_count: s,
        }
    }
}

// ---------------------------------------------------------------------------
// The dispatcher protocol: the event type, the advancement rule applied per
// answer, and the continuation rule that walks the chain.
// ---------------------------------------------------------------------------

/// The session cursor an event carries: which repeating scenario it belongs
/// to.
#[derive(Clone, Copy, PartialEq, Eq, Structural, Debug)]
pub struct EventContext {
    pub scenario_id: usize,
}

/// What the pacer hands the dispatcher: a send, or the shutdown signal.
pub enum Event {
    SendMessage(EventContext),
    Terminate,
}

impl EventContext {
    /// The dispatcher's rule: the answer to a send carries the next cursor.
    pub fn advance(self) -> (r: EventContext)
        requires
            self.scenario_id < usize::MAX,
        ensures
            r.scenario_id == self.scenario_id + 1,
    {
        EventContext { scenario_id: self.scenario_id + 1 }
    }
}

/// The pacer's rule: after an answer carrying `ctx`, the session continues
/// with the scenario at the cursor — exactly when the chain still has one.
pub fn next_scenario(ctx: &EventContext, scenario_count: usize) -> (r: Option<usize>)
    ensures
        r == if ctx.scenario_id < scenario_count {
            Some(ctx.scenario_id)
        } else {
            None::<usize>
        },
{
    if ctx.scenario_id < scenario_count {
        Some(ctx.scenario_id)
    } else {
        None
    }
}

/// The send order the transport observes within one iteration, with every
/// answer returned in send order: the whole batch at each chain step, steps
/// in order.
pub open spec fn iteration_trace(batch: nat, scount: nat) -> Seq<int> {
    Seq::new(batch * scount, |k: int| k / batch as int)
}

/// The send order over a whole run: the iterations in order.
pub open spec fn full_trace(iterations: nat, batch: nat, scount: nat) -> Seq<int>
    decreases iterations,
{
    if iterations == 0 {
        Seq::empty()
    } else {
        full_trace((iterations - 1) as nat, batch, scount) + iteration_trace(batch, scount)
    }
}

/// Drives the dispatcher protocol over a synchronous transport that answers
/// every send in order: per iteration, the batch for the first scenario goes
/// out, and each answer advances its session and emits the next scenario's
/// send until the chain ends. Returns the scenario ids in transport order.
pub fn simulate_dispatch(scenario_count: usize, batch_size: usize, total_iterations: usize) -> (r:
    Vec<usize>)
    requires
        scenario_count >= 1,
        batch_size >= 1,
        total_iterations * batch_size * scenario_count <= usize::MAX,
    ensures
        r@.len() == total_iterations * batch_size * scenario_count,
        r@.map_values(|x: usize| x as int) == full_trace(
            total_iterations as nat,
            batch_size as nat,
            scenario_count as nat,
        ),
{
    let mut out: Vec<usize> = Vec::new();
    let mut it: usize = 0;
    proof {
        assert(out@.map_values(|x: usize| x as int) =~= full_trace(
            0,
            batch_size as nat,
            scenario_count as nat,
        ));
        assert(0 * batch_size * scenario_count == 0) by (nonlinear_arith);
    }
    while it < total_iterations
        invariant
            it <= total_iterations,
            scenario_count >= 1,
            batch_size >= 1,
            total_iterations * batch_size * scenario_count <= usize::MAX,
            out@.len() == it * batch_size * scenario_count,
            out@.map_values(|x: usize| x as int) == full_trace(
                it as nat,
                batch_size as nat,
                scenario_count as nat,
            ),
        decreases total_iterations - it,
    {
        let ghost out_it = out@;
        proof {
            assert((it + 1) * batch_size * scenario_count <= total_iterations * batch_size
                * scenario_count) by (nonlinear_arith)
                requires
                    it < total_iterations,
                    batch_size >= 1,
                    scenario_count >= 1,
            ;
            assert(it * batch_size * scenario_count + batch_size * scenario_count == (it + 1)
                * batch_size * scenario_count) by (nonlinear_arith);
            assert(batch_size * scenario_count >= batch_size) by (nonlinear_arith)
                requires
                    scenario_count >= 1,
                    batch_size >= 0,
            ;
            assert((scenario_count - 1) * batch_size + batch_size == scenario_count * batch_size)
                by (nonlinear_arith);
            assert(scenario_count * batch_size == batch_size * scenario_count)
                by (nonlinear_arith);
        }
        // the batch for the first scenario
        let mut b: usize = 0;
        while b < batch_size
            invariant
                b <= batch_size,
                scenario_count >= 1,
                out@.len() == out_it.len() + b,
                out@.len() + (batch_size - b) <= usize::MAX,
                out@ == out_it + Seq::new(b as nat, |k: int| 0usize),
            decreases batch_size - b,
        {
            out.push(0);
            assert(out@ =~= out_it + Seq::new(b as nat + 1, |k: int| 0usize));
            b += 1;
        }
        // each answer advances its session; the next scenario's send follows
        // while the chain lasts
        proof {
            assert(1 * batch_size == batch_size) by (nonlinear_arith);
            assert forall|k: int|
                0 <= k < batch_size implies #[trigger] (k / (batch_size as int)) == 0 by {
                assert(k / (batch_size as int) == 0) by (nonlinear_arith)
                    requires
                        batch_size >= 1,
                        0 <= k < batch_size,
                ;
            }
            assert(out@ =~= out_it + Seq::new(
                ((0 + 1) * batch_size) as nat,
                |k: int| (k / (batch_size as int)) as usize,
            ));
        }
        let mut wave: usize = 0;
        while wave < scenario_count - 1
            invariant
                wave <= scenario_count - 1,
                scenario_count >= 1,
                batch_size >= 1,
                out@.len() == out_it.len() + (wave + 1) * batch_size,
                out@.len() + (scenario_count - 1 - wave) * batch_size <= usize::MAX,
                out@ == out_it + Seq::new(
                    ((wave + 1) * batch_size) as nat,
                    |k: int| (k / (batch_size as int)) as usize,
                ),
            decreases scenario_count - 1 - wave,
        {
            proof {
                assert((wave + 2) * batch_size == (wave + 1) * batch_size + batch_size)
                    by (nonlinear_arith);
                assert((scenario_count - 1 - wave) * batch_size == batch_size + (scenario_count
                    - 2 - wave) * batch_size) by (nonlinear_arith)
                    requires
                        wave < scenario_count - 1,
                ;
            }
            let mut j: usize = 0;
            let ghost out_w = out@;
            while j < batch_size
                invariant
                    j <= batch_size,
                    wave + 1 < scenario_count,
                    wave + 1 < usize::MAX,
                    batch_size >= 1,
                    out@.len() == out_w.len() + j,
                    out@.len() + (batch_size - j) + (scenario_count - 2 - wave) * batch_size
                        <= usize::MAX,
                    out@ == out_w + Seq::new(j as nat, |k: int| (wave + 1) as usize),
                decreases batch_size - j,
            {
                let ctx = EventContext { scenario_id: wave };
                let answered = ctx.advance();
                match next_scenario(&answered, scenario_count) {
                    Some(sid) => {
                        out.push(sid);
                        assert(out@ =~= out_w + Seq::new(j as nat + 1, |k: int| (wave
                            + 1) as usize));
                    },
                    None => {
                        assert(false);
                    },
                }
                j += 1;
            }
            proof {
                let bs = batch_size as int;
                let target = out_it + Seq::new(
                    ((wave + 2) * batch_size) as nat,
                    |k: int| (k / (batch_size as int)) as usize,
                );
                assert forall|k: int| 0 <= k < out@.len() implies out@[k] == target[k] by {
                    if k < out_w.len() {
                        if k >= out_it.len() {
                            assert(out_w[k] == Seq::new(
                                ((wave + 1) * batch_size) as nat,
                                |k2: int| (k2 / (batch_size as int)) as usize,
                            )[k - out_it.len()]);
                        }
                    } else {
                        let off = k - out_it.len();
                        assert(out@[k] == (wave + 1) as usize);
                        assert((wave + 1) * batch_size <= off < (wave + 2) * batch_size);
                        assert(off / bs == wave + 1) by (nonlinear_arith)
                            requires
                                bs >= 1,
                                (wave + 1) * bs <= off < (wave + 2) * bs,
                        ;
                    }
                }
                assert(out@.len() == target.len());
                assert(out@ =~= target);
            }
            wave += 1;
        }
        proof {
            let bs = batch_size as int;
            let ghost m = out@.map_values(|x: usize| x as int);
            let ghost ft = full_trace((it + 1) as nat, batch_size as nat, scenario_count as nat);
            assert(ft == full_trace(it as nat, batch_size as nat, scenario_count as nat)
                + iteration_trace(batch_size as nat, scenario_count as nat));
            assert(out@.len() == out_it.len() + scenario_count * batch_size);
            assert(out_it.map_values(|x: usize| x as int).len() == out_it.len());
            assert(scenario_count * batch_size == batch_size * scenario_count);
            assert forall|k: int| 0 <= k < m.len() implies m[k] == ft[k] by {
                assert(m[k] == out@[k] as int);
                if k < out_it.len() {
                    assert(out@[k] == out_it[k]);
                    assert(out_it.map_values(|x: usize| x as int)[k] == out_it[k] as int);
                    assert(ft[k] == full_trace(
                        it as nat,
                        batch_size as nat,
                        scenario_count as nat,
                    )[k]);
                } else {
                    let off = k - out_it.len();
                    assert(out@[k] == Seq::new(
                        ((scenario_count) * batch_size) as nat,
                        |k2: int| (k2 / (batch_size as int)) as usize,
                    )[off]);
                    assert(out@[k] == (off / bs) as usize);
                    assert(0 <= off / bs < scenario_count) by (nonlinear_arith)
                        requires
                            bs >= 1,
                            0 <= off < bs * scenario_count,
                    ;
                    assert(iteration_trace(batch_size as nat, scenario_count as nat)[off] == off
                        / bs);
                    assert(ft[k] == iteration_trace(batch_size as nat, scenario_count as nat)[
                        off]);
                }
            }
            assert(m.len() == ft.len());
            assert(m =~= ft);
        }
        it += 1;
    }
    proof {
        assert(out@.len() == total_iterations * batch_size * scenario_count);
    }
    out
}

} // verus!
