//! The broadcast orchestrator: a bounded pool of concurrent send attempts
//! drains a stack of candidate peer addresses until a quorum of peers has
//! accepted the transaction or the address pool is exhausted.
//!
//! The orchestrator itself is a plain state machine. `new` and
//! `dispatch_initial_wave` start a run, and `on_outcome` consumes one
//! attempt outcome and says what to do next. A driver that owns the real
//! transport performs each `Step::Dispatch` it is handed; `run_broadcast`
//! is the complete run for a driver that already knows each outcome in
//! arrival order, and carries the whole quorum/exhaustion contract.

use vstd::prelude::*;

verus! {

/// Upper bound on concurrently outstanding send attempts.
pub const MAX_WORKERS: usize = 32;

/// Number of peers that must accept the transaction before the run
/// counts as a success.
pub const MIN_SUCCESSFUL: usize = 4;

/// The two tunables of a broadcast run.
#[derive(Clone, Copy)]
pub struct Config {
    /// Bound on concurrently outstanding attempts; the initial wave
    /// dispatches at most `max_workers - 1` of them.
    pub max_workers: usize,
    /// Quorum: successes needed before the run terminates successfully.
    pub min_successful: usize,
}

impl Config {
    /// A usable configuration: the quorum is positive and small enough
    /// that the initial wave alone could reach it.
    pub open spec fn wf(self) -> bool {
        1 <= self.min_successful && self.min_successful < self.max_workers
    }

    pub fn new(max_workers: usize, min_successful: usize) -> (c: Config)
        requires
            1 <= min_successful < max_workers,
        ensures
            c == (Config { max_workers, min_successful }),
            c.wf(),
    {
        Config { max_workers, min_successful }
    }

    /// The configuration a broadcast run uses unless told otherwise.
    pub fn default_config() -> (c: Config)
        ensures
            c == (Config { max_workers: MAX_WORKERS, min_successful: MIN_SUCCESSFUL }),
            c.wf(),
    {
        Config { max_workers: MAX_WORKERS, min_successful: MIN_SUCCESSFUL }
    }
}

/// How many of the outcomes are successes.
pub open spec fn count_true(s: Seq<bool>) -> int
    decreases s.len(),
{
    if s.len() == 0 {
        0
    } else {
        count_true(s.drop_last()) + (if s.last() {
            1int
        } else {
            0int
        })
    }
}

pub proof fn lemma_count_true_bounds(s: Seq<bool>)
    ensures
        0 <= count_true(s) <= s.len(),
    decreases s.len(),
{
    if s.len() > 0 {
        lemma_count_true_bounds(s.drop_last());
    }
}

pub proof fn lemma_count_true_take_succ(s: Seq<bool>, i: int)
    requires
        0 <= i < s.len(),
    ensures
        count_true(s.take(i + 1)) == count_true(s.take(i)) + (if s[i] {
            1int
        } else {
            0int
        }),
{
    assert(s.take(i + 1).drop_last() =~= s.take(i));
    assert(s.take(i + 1).last() == s[i]);
}

pub proof fn lemma_count_true_take_monotone(s: Seq<bool>, i: int, j: int)
    requires
        0 <= i <= j <= s.len(),
    ensures
        count_true(s.take(i)) <= count_true(s.take(j)),
    decreases j - i,
{
    if i < j {
        lemma_count_true_take_succ(s, i);
        lemma_count_true_take_monotone(s, i + 1, j);
    }
}

/// A run in which the transport fails for every address yields no
/// successes at all, whatever the pool size; together with the contract
/// of `run_broadcast` this forces the pool-exhaustion error.
pub proof fn lemma_count_true_all_false(s: Seq<bool>)
    requires
        forall|i: int| 0 <= i < s.len() ==> !s[i],
    ensures
        count_true(s) == 0,
    decreases s.len(),
{
    if s.len() > 0 {
        assert(forall|i: int| 0 <= i < s.drop_last().len() ==> !s.drop_last()[i]);
        lemma_count_true_all_false(s.drop_last());
    }
}

/// What a driver must do after handing one attempt outcome to the
/// orchestrator.
pub enum Step {
    /// A replacement attempt starts on this address.
    Dispatch(String),
    /// Nothing to start; outcomes of outstanding attempts are still awaited.
    Continue,
    /// Quorum reached: the run is over, outstanding attempts are abandoned.
    Succeeded,
    /// The pool is empty and no attempt is outstanding: the run failed.
    Exhausted,
}

/// The state of one broadcast run.
///
/// Addresses are popped off the pool, so each pool entry is handed to at
/// most one attempt; all mutation happens through the transition methods,
/// never concurrently.
pub struct Orchestrator {
    pub cfg: Config,
    /// Candidate addresses not yet attempted, consumed from the end.
    pub pool: Vec<String>,
    /// Attempts started so far.
    pub dispatched: usize,
    /// Successful outcomes consumed so far.
    pub successes: usize,
    /// Failed outcomes consumed so far.
    pub failures: usize,
    /// The pool as the run started, for the single-use argument.
    pub initial: Ghost<Seq<String>>,
}

impl Orchestrator {
    /// Attempts in flight: started, but their outcome not yet consumed.
    pub open spec fn outstanding(self) -> int {
        self.dispatched - self.successes - self.failures
    }

    /// Invariant of every run state.
    pub open spec fn inv(self) -> bool {
        &&& self.cfg.wf()
        &&& self.initial@.len() <= usize::MAX
        &&& self.pool@.len() <= self.initial@.len()
        &&& self.pool@ == self.initial@.take(self.pool@.len() as int)
        &&& self.dispatched == self.initial@.len() - self.pool@.len()
        &&& self.successes + self.failures <= self.dispatched
        &&& self.dispatched <= self.cfg.max_workers - 1 + self.failures
        &&& self.successes <= self.cfg.min_successful
    }

    /// Holds once the initial wave is out: as long as addresses remain,
    /// every consumed failure has been replaced by a fresh attempt.
    pub open spec fn launched(self) -> bool {
        self.pool@.len() > 0 ==> self.dispatched == self.cfg.max_workers - 1 + self.failures
    }

    /// A fresh run over `addresses`; nothing dispatched yet.
    pub fn new(cfg: Config, addresses: Vec<String>) -> (o: Orchestrator)
        requires
            cfg.wf(),
        ensures
            o.inv(),
            o.cfg == cfg,
            o.pool@ == addresses@,
            o.initial@ == addresses@,
            o.dispatched == 0,
            o.successes == 0,
            o.failures == 0,
    {
        let ghost init = addresses@;
        let n: usize = addresses.len();
        proof {
            assert(addresses@.len() == n);
            assert(addresses@.take(addresses@.len() as int) =~= addresses@);
        }
        Orchestrator { cfg, pool: addresses, dispatched: 0, successes: 0, failures: 0, initial: Ghost(init) }
    }

    /// Pops the addresses of the initial wave of attempts: one per address,
    /// up to `max_workers - 1` of them, in pop order. The driver starts one
    /// attempt per returned address.
    pub fn dispatch_initial_wave(&mut self) -> (wave: Vec<String>)
        requires
            old(self).inv(),
            old(self).dispatched == 0,
            old(self).successes == 0,
            old(self).failures == 0,
        ensures
            final(self).inv(),
            final(self).launched(),
            final(self).cfg == old(self).cfg,
            final(self).initial@ == old(self).initial@,
            final(self).successes == 0,
            final(self).failures == 0,
            final(self).dispatched == wave@.len(),
            wave@.len() == vstd::math::min(old(self).pool@.len() as int, old(self).cfg.max_workers - 1),
            final(self).pool@.len() == old(self).pool@.len() - wave@.len(),
            forall|i: int|
                0 <= i < wave@.len() ==> wave@[i] == old(self).pool@[old(self).pool@.len() - 1 - i],
    {
        let ghost init = self.initial@;
        let ghost pool0 = self.pool@;
        let ghost cfg0 = self.cfg;
        let mut wave: Vec<String> = Vec::new();
        while wave.len() < self.cfg.max_workers - 1 && self.pool.len() > 0
            invariant
                self.cfg == cfg0,
                cfg0.wf(),
                self.initial@ == init,
                self.pool@ == pool0.take(self.pool@.len() as int),
                pool0 == init.take(pool0.len() as int),
                pool0.len() <= init.len() <= usize::MAX,
                self.successes == 0,
                self.failures == 0,
                self.dispatched == wave@.len(),
                wave@.len() <= cfg0.max_workers - 1,
                wave@.len() == pool0.len() - self.pool@.len(),
                forall|i: int| 0 <= i < wave@.len() ==> wave@[i] == pool0[pool0.len() - 1 - i],
            decreases self.pool@.len(),
        {
            let a = self.pool.pop().unwrap();
            proof {
                assert(self.pool@ =~= pool0.take(self.pool@.len() as int));
            }
            wave.push(a);
            self.dispatched = self.dispatched + 1;
        }
        proof {
            assert(self.pool@ =~= init.take(self.pool@.len() as int));
        }
        wave
    }

    /// Consumes one attempt outcome and decides the next move: replace a
    /// failed attempt while addresses remain, declare the run over at the
    /// quorum, and declare it failed when the pool is dry and the last
    /// outstanding attempt has failed short of the quorum.
    pub fn on_outcome(&mut self, success: bool) -> (step: Step)
        requires
            old(self).inv(),
            old(self).launched(),
            old(self).outstanding() > 0,
            old(self).successes < old(self).cfg.min_successful,
        ensures
            final(self).inv(),
            final(self).launched(),
            final(self).cfg == old(self).cfg,
            final(self).initial@ == old(self).initial@,
            success ==> {
                &&& final(self).successes == old(self).successes + 1
                &&& final(self).failures == old(self).failures
                &&& final(self).dispatched == old(self).dispatched
                &&& final(self).pool@ == old(self).pool@
                &&& (step is Succeeded <==> old(self).successes + 1
                    == old(self).cfg.min_successful)
                &&& (step is Exhausted <==> (old(self).successes + 1
                    < old(self).cfg.min_successful && final(self).outstanding() == 0))
                &&& (step is Continue <==> (old(self).successes + 1
                    < old(self).cfg.min_successful && final(self).outstanding() > 0))
                &&& !(step is Dispatch)
            },
            !success ==> {
                &&& final(self).successes == old(self).successes
                &&& final(self).failures == old(self).failures + 1
                &&& !(step is Succeeded)
                &&& (old(self).pool@.len() > 0 ==> {
                    &&& (step matches Step::Dispatch(a) && a == old(self).pool@.last())
                    &&& final(self).pool@ == old(self).pool@.drop_last()
                    &&& final(self).dispatched == old(self).dispatched + 1
                })
                &&& (old(self).pool@.len() == 0 ==> {
                    &&& final(self).pool@ == old(self).pool@
                    &&& final(self).dispatched == old(self).dispatched
                    &&& !(step is Dispatch)
                    &&& (step is Exhausted <==> final(self).outstanding() == 0)
                    &&& (step is Continue <==> final(self).outstanding() > 0)
                })
            },
    {
        if success {
            self.successes = self.successes + 1;
            if self.successes >= self.cfg.min_successful {
                Step::Succeeded
            } else if self.dispatched - self.successes - self.failures == 0 {
                Step::Exhausted
            } else {
                Step::Continue
            }
        } else {
            self.failures = self.failures + 1;
            let popped = self.pool.pop();
            match popped {
                Option::Some(a) => {
                    proof {
                        assert(self.pool@ =~= self.initial@.take(self.pool@.len() as int));
                    }
                    self.dispatched = self.dispatched + 1;
                    Step::Dispatch(a)
                },
                Option::None => {
                    if self.dispatched - self.successes - self.failures == 0 {
                        Step::Exhausted
                    } else {
                        Step::Continue
                    }
                },
            }
        }
    }
}

/// Why a broadcast run failed.
#[derive(Clone, Copy, PartialEq, Eq, Structural, Debug)]
pub enum BroadcastError {
    /// A new attempt could not be started: the address pool was empty,
    /// either from the start or when the last outstanding attempt failed
    /// short of the quorum.
    PoolExhausted,
}

/// What one complete broadcast run did.
pub struct RunReport {
    /// `Ok` once the quorum was reached, `Err(PoolExhausted)` otherwise.
    pub outcome: Result<(), BroadcastError>,
    /// The addresses handed to the transport, in dispatch order.
    pub attempted: Vec<String>,
    /// How many attempt outcomes the run consumed before it returned.
    pub consumed: usize,
}

/// One complete broadcast run whose attempt outcomes are already known
/// in arrival order: `outcomes[k]` is the outcome of the `k`-th attempt
/// to complete, whichever address it was sent to.
///
/// The contract pins the run down exactly:
/// - the run succeeds if and only if the outcomes that could ever be
///   consumed (one per pool address) hold at least a quorum of successes;
/// - on success the run stops at the outcome that completes the quorum,
///   leaving later attempts unwaited-for;
/// - on failure every address was attempted and every outcome consumed;
/// - the attempted addresses are the top of the original pool, in pop
///   order, so no address is used twice.
#[verifier::loop_isolation(false)]
pub fn run_broadcast(cfg: Config, addresses: Vec<String>, outcomes: &Vec<bool>) -> (r: RunReport)
    requires
        cfg.wf(),
        outcomes@.len() >= addresses@.len(),
    ensures
        r.attempted@.len() <= addresses@.len(),
        r.consumed <= r.attempted@.len(),
        forall|i: int|
            0 <= i < r.attempted@.len() ==> r.attempted@[i] == addresses@[addresses@.len() - 1
                - i],
        r.outcome is Ok <==> count_true(outcomes@.take(addresses@.len() as int))
            >= cfg.min_successful,
        r.outcome is Ok ==> {
            &&& r.consumed >= 1
            &&& outcomes@[r.consumed - 1]
            &&& count_true(outcomes@.take(r.consumed as int)) == cfg.min_successful
            &&& count_true(outcomes@.take(r.consumed - 1)) == cfg.min_successful - 1
        },
        r.outcome is Err ==> {
            &&& r.outcome == Result::<(), BroadcastError>::Err(BroadcastError::PoolExhausted)
            &&& r.consumed == addresses@.len()
            &&& r.attempted@.len() == addresses@.len()
            &&& count_true(outcomes@.take(addresses@.len() as int)) < cfg.min_successful
        },
        r.attempted@.len() == vstd::math::min(
            addresses@.len() as int,
            cfg.max_workers - 1 + r.consumed - count_true(outcomes@.take(r.consumed as int)),
        ),
{
    let ghost init = addresses@;
    let ghost n: int = addresses@.len() as int;
    let mut orch = Orchestrator::new(cfg, addresses);
    let mut attempted = orch.dispatch_initial_wave();
    let mut consumed: usize = 0;
    if attempted.len() == 0 {
        proof {
            assert(outcomes@.take(0) =~= Seq::<bool>::empty());
            lemma_count_true_bounds(outcomes@.take(n));
        }
        return RunReport { outcome: Result::Err(BroadcastError::PoolExhausted), attempted, consumed };
    }
    loop
        invariant
            cfg.wf(),
            orch.inv(),
            orch.launched(),
            orch.cfg == cfg,
            orch.initial@ == init,
            init.len() == n,
            0 < n,
            outcomes@.len() >= n,
            orch.outstanding() > 0,
            consumed == orch.successes + orch.failures,
            orch.successes == count_true(outcomes@.take(consumed as int)),
            orch.successes < cfg.min_successful,
            attempted@.len() == orch.dispatched,
            forall|i: int| 0 <= i < attempted@.len() ==> attempted@[i] == init[n - 1 - i],
        decreases n - consumed,
    {
        proof {
            assert(consumed < orch.dispatched);
            assert(orch.dispatched <= n);
        }
        let oc = outcomes[consumed];
        consumed = consumed + 1;
        proof {
            lemma_count_true_take_succ(outcomes@, consumed - 1);
        }
        let step = orch.on_outcome(oc);
        match step {
            Step::Dispatch(a) => {
                attempted.push(a);
            },
            Step::Continue => {},
            Step::Succeeded => {
                proof {
                    lemma_count_true_take_monotone(outcomes@, consumed as int, n);
                }
                return RunReport { outcome: Result::Ok(()), attempted, consumed };
            },
            Step::Exhausted => {
                proof {
                    assert(orch.pool@.len() == 0);
                    assert(orch.dispatched == n);
                    assert(consumed == n);
                }
                return RunReport {
                    outcome: Result::Err(BroadcastError::PoolExhausted),
                    attempted,
                    consumed,
                };
            },
        }
    }
}

/// At no point are more attempts outstanding than the configured worker
/// bound: every reachable run state keeps strictly fewer than
/// `max_workers` attempts in flight.
pub proof fn lemma_concurrency_bound(o: Orchestrator)
    requires
        o.inv(),
    ensures
        0 <= o.outstanding() < o.cfg.max_workers,
{
}

/// No pool entry is handed to the transport twice: the attempted
/// addresses are distinct positions of the original pool, so a pool of
/// pairwise-distinct addresses is attempted without repetition.
pub proof fn lemma_single_use(pool: Seq<String>, attempted: Seq<String>)
    requires
        forall|i: int, j: int| 0 <= i < j < pool.len() ==> pool[i] != pool[j],
        attempted.len() <= pool.len(),
        forall|i: int| 0 <= i < attempted.len() ==> attempted[i] == pool[pool.len() - 1 - i],
    ensures
        forall|i: int, j: int| 0 <= i < j < attempted.len() ==> attempted[i] != attempted[j],
{
    assert forall|i: int, j: int| 0 <= i < j < attempted.len() implies attempted[i]
        != attempted[j] by {
        assert(attempted[i] == pool[pool.len() - 1 - i]);
        assert(attempted[j] == pool[pool.len() - 1 - j]);
    }
}

} // verus!
