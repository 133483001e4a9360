//! The strategy escalation engine.
//!
//! A caller configures an ordered list of backend strategies.  Attempts are
//! made in exactly that order; a failure or a timeout records its reason and
//! escalates to the next strategy, the first success short-circuits, and
//! when every strategy is exhausted all recorded reasons are surfaced
//! together, in attempt order — never silently discarded.  Before each
//! attempt the cancellation flag is honoured: once it is set, no further
//! strategy is attempted.
//!
//! The engine itself performs no outside work: the caller (or the pure
//! driver `run_escalation`) hands each attempt's outcome back in.

use vstd::prelude::*;
use crate::text::string_views;

verus! {

/// One backend strategy, as the caller ranked it: an identifier, the
/// timeout granted to one attempt, and the cooldown honoured after a
/// failure that requests one.
pub struct StrategyDescriptor {
    pub id: String,
    pub timeout_ms: u64,
    pub cooldown_ms: u64,
}

/// What one strategy attempt came to.
pub enum AttemptOutcome {
    /// The artifact was produced at the given location.
    Success(String),
    /// The attempt failed for the given reason.
    Failure(String),
    /// The attempt exceeded its timeout.
    Timeout,
}

/// What a whole escalation came to.
pub enum EscalationResult {
    /// Some strategy succeeded; the value is the artifact location.
    Done(String),
    /// Every strategy was attempted and failed; the reasons stand in
    /// attempt order.
    Exhausted(Vec<String>),
    /// The cancellation flag was observed before an attempt.
    Cancelled,
}

/// The reason recorded for a failed or timed-out attempt.
pub open spec fn spec_recorded_reason(o: AttemptOutcome) -> Seq<char> {
    match o {
        AttemptOutcome::Failure(r) => r@,
        AttemptOutcome::Timeout => "strategy timed out"@,
        AttemptOutcome::Success(_) => Seq::empty(),
    }
}

/// The first success at or after position `i`.
pub open spec fn spec_first_success(os: Seq<AttemptOutcome>, i: nat) -> Option<int>
    decreases os.len() - i,
{
    if i >= os.len() {
        None
    } else if os[i as int] is Success {
        Some(i as int)
    } else {
        spec_first_success(os, i + 1)
    }
}

/// A first success found from position `i` on lies at or beyond `i`.
pub proof fn lemma_first_success_ge(os: Seq<AttemptOutcome>, i: nat)
    ensures
        spec_first_success(os, i) matches Some(j) ==> i <= j < os.len() && os[j] is Success,
    decreases os.len() - i,
{
    if i < os.len() && !(os[i as int] is Success) {
        lemma_first_success_ge(os, i + 1);
    }
}

/// How many attempts the cancellation point allows out of `n`.
pub open spec fn spec_limit(n: int, cancel_at: Option<usize>) -> int {
    match cancel_at {
        Some(k) => if k < n {
            k as int
        } else {
            n
        },
        None => n,
    }
}

/// The reasons an exhausted escalation over `os` records, in order.
pub open spec fn spec_all_reasons(os: Seq<AttemptOutcome>) -> Seq<Seq<char>> {
    Seq::new(os.len(), |q: int| spec_recorded_reason(os[q]))
}

/// Run a whole escalation over the outcomes the strategies would produce,
/// one outcome per configured strategy, with the cancellation flag first
/// observed set before attempt `cancel_at` (if anywhere).  Returns the
/// result and the number of attempts made.
pub fn run_escalation(
    strategies: &Vec<StrategyDescriptor>,
    outcomes: &Vec<AttemptOutcome>,
    cancel_at: Option<usize>,
) -> (r: (EscalationResult, usize))
    requires
        outcomes@.len() == strategies@.len(),
    ensures
        ({
            let os = outcomes@;
            let n = os.len() as int;
            let limit = spec_limit(n, cancel_at);
            match spec_first_success(os, 0) {
                Some(i) => if i < limit {
                    r.1 == i + 1 && (r.0 matches EscalationResult::Done(p) && os[i] matches
                        AttemptOutcome::Success(sp) && p@ == sp@)
                } else {
                    r.1 == limit && r.0 is Cancelled
                },
                None => if limit < n {
                    r.1 == limit && r.0 is Cancelled
                } else {
                    r.1 == n && (r.0 matches EscalationResult::Exhausted(rs) && string_views(rs@)
                        =~= spec_all_reasons(os))
                },
            }
        }),
{
    let ghost os = outcomes@;
    let n = outcomes.len();
    let mut reasons: Vec<String> = Vec::new();
    let mut i: usize = 0;
    while i < n
        invariant
            n == os.len(),
            os == outcomes@,
            i <= n,
            spec_first_success(os, 0) == spec_first_success(os, i as nat),
            match cancel_at {
                Some(k) => i <= k,
                None => true,
            },
            reasons@.len() == i,
            forall|q: int| 0 <= q < i ==> (#[trigger] reasons@[q])@ == spec_recorded_reason(os[q]),
        decreases n - i,
    {
        match cancel_at {
            Some(k) => {
                if i >= k {
                    proof {
                        lemma_first_success_ge(os, i as nat);
                    }
                    return (EscalationResult::Cancelled, i);
                }
            },
            None => {},
        }
        match &outcomes[i] {
            AttemptOutcome::Success(p) => {
                return (EscalationResult::Done(p.clone()), i + 1);
            },
            AttemptOutcome::Failure(e) => {
                reasons.push(e.clone());
            },
            AttemptOutcome::Timeout => {
                reasons.push(String::from_str("strategy timed out"));
            },
        }
        i = i + 1;
    }
    proof {
        assert(string_views(reasons@) =~= spec_all_reasons(os));
    }
    (EscalationResult::Exhausted(reasons), n)
}

/// The mathematical value of the engine: how many strategies it holds, how
/// many attempts it has consumed, and the reasons recorded so far.
pub ghost struct EngineView {
    pub n: int,
    pub next: int,
    pub reasons: Seq<Seq<char>>,
}

/// What the engine asks its driver to do next.
pub enum NextStep {
    /// Attempt the strategy at this position.
    Attempt(usize),
    /// The cancellation flag is set: abort with a cancelled result.
    Abort,
    /// Every strategy has been attempted without success.
    Exhausted,
}

/// The escalation engine in its incremental form: a driver asks for the
/// next step, performs the attempt it names, and hands the outcome back.
pub struct EscalationEngine {
    strategies: Vec<StrategyDescriptor>,
    next_index: usize,
    reasons: Vec<String>,
}

impl View for EscalationEngine {
    type V = EngineView;

    closed spec fn view(&self) -> EngineView {
        EngineView {
            n: self.strategies@.len() as int,
            next: self.next_index as int,
            reasons: string_views(self.reasons@),
        }
    }
}

impl EscalationEngine {
    /// An engine over the caller's ranked strategies, before any attempt.
    pub fn new(strategies: Vec<StrategyDescriptor>) -> (r: EscalationEngine)
        ensures
            r@.n == strategies@.len(),
            r@.next == 0,
            r@.reasons.len() == 0,
    {
        let r = EscalationEngine { strategies, next_index: 0, reasons: Vec::new() };
        proof {
            assert(r@.reasons =~= Seq::<Seq<char>>::empty());
        }
        r
    }

    /// The strategy at position `i`, for the driver to attempt.
    pub fn strategy_at(&self, i: usize) -> (r: &StrategyDescriptor)
        requires
            i < self@.n,
    {
        &self.strategies[i]
    }

    /// What to do next, given the cancellation flag as currently observed:
    /// abort when it is set, attempt the next strategy while one is left,
    /// and give up once all are exhausted.
    pub fn next_step(&self, cancel: bool) -> (r: NextStep)
        ensures
            cancel ==> r is Abort,
            !cancel && self@.next < self@.n ==> (r matches NextStep::Attempt(i) && i
                == self@.next),
            !cancel && self@.next >= self@.n ==> r is Exhausted,
    {
        if cancel {
            NextStep::Abort
        } else if self.next_index < self.strategies.len() {
            NextStep::Attempt(self.next_index)
        } else {
            NextStep::Exhausted
        }
    }

    /// Record the outcome of the attempt the engine last asked for.  A
    /// success short-circuits and yields the artifact; a failure or timeout
    /// records its reason and moves to the next strategy.
    pub fn record_outcome(&mut self, oc: AttemptOutcome) -> (done: Option<String>)
        requires
            old(self)@.next < old(self)@.n,
        ensures
            final(self)@.n == old(self)@.n,
            match oc {
                AttemptOutcome::Success(p) => done matches Some(q) && q@ == p@ && final(self)@
                    == old(self)@,
                AttemptOutcome::Failure(e) => done is None && final(self)@.next == old(self)@.next
                    + 1 && final(self)@.reasons == old(self)@.reasons.push(e@),
                AttemptOutcome::Timeout => done is None && final(self)@.next == old(self)@.next + 1
                    && final(self)@.reasons == old(self)@.reasons.push("strategy timed out"@),
            },
    {
        match oc {
            AttemptOutcome::Success(p) => Some(p),
            AttemptOutcome::Failure(e) => {
                let ghost ev = e@;
                self.reasons.push(e);
                proof {
                    assert(self.strategies.len() == self.strategies@.len());
                }
                self.next_index = self.next_index + 1;
                proof {
                    assert(self@.reasons =~= old(self)@.reasons.push(ev));
                }
                None
            },
            AttemptOutcome::Timeout => {
                self.reasons.push(String::from_str("strategy timed out"));
                proof {
                    assert(self.strategies.len() == self.strategies@.len());
                }
                self.next_index = self.next_index + 1;
                proof {
                    assert(self@.reasons =~= old(self)@.reasons.push("strategy timed out"@));
                }
                None
            },
        }
    }

    /// The reasons recorded so far, in attempt order.
    pub fn reasons(&self) -> (r: &Vec<String>)
        ensures
            string_views(r@) == self@.reasons,
    {
        &self.reasons
    }
}

} // verus!
