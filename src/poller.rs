use vstd::prelude::*;

verus! {

/// Where a confirmation poll stands.
#[derive(Clone, Copy, Debug, PartialEq, Eq, Structural)]
pub enum PollStatus {
    Pending,
    Finalized,
    TimedOut,
}

/// A bounded confirmation poll: at most `max_attempts` finality checks,
/// `delay_ms` apart.
#[derive(Clone, Copy, Debug)]
pub struct Poller {
    pub attempts: u32,
    pub max_attempts: u32,
    pub delay_ms: u64,
    pub status: PollStatus,
}

impl Poller {
    pub open spec fn wf(self) -> bool {
        &&& self.attempts <= self.max_attempts
        &&& (self.status == PollStatus::Pending ==> self.attempts < self.max_attempts)
        &&& (self.status == PollStatus::TimedOut ==> self.attempts == self.max_attempts)
    }

    pub open spec fn start(max_attempts: u32, delay_ms: u64) -> Poller {
        Poller {
            attempts: 0,
            max_attempts,
            delay_ms,
            status: if max_attempts == 0 { PollStatus::TimedOut } else { PollStatus::Pending },
        }
    }

    /// One finality check of a pending poll that reported `finalized`.
    pub open spec fn step(self, finalized: bool) -> Poller {
        let attempts = (self.attempts + 1) as u32;
        Poller {
            attempts,
            status: if finalized {
                PollStatus::Finalized
            } else if attempts >= self.max_attempts {
                PollStatus::TimedOut
            } else {
                PollStatus::Pending
            },
            ..self
        }
    }

    /// The poll after the checks reported `flags`, in order; checks after
    /// the poll has ended are not made.
    pub open spec fn run(self, flags: Seq<bool>) -> Poller
        decreases flags.len(),
    {
        if flags.len() == 0 || self.status != PollStatus::Pending {
            self
        } else {
            self.step(flags[0]).run(flags.drop_first())
        }
    }

    pub fn new(max_attempts: u32, delay_ms: u64) -> (r: Poller)
        ensures
            r == Poller::start(max_attempts, delay_ms),
            r.wf(),
    {
        Poller {
            attempts: 0,
            max_attempts,
            delay_ms,
            status: if max_attempts == 0 { PollStatus::TimedOut } else { PollStatus::Pending },
        }
    }

    /// Whether the caller should make another finality check.
    pub fn is_pending(&self) -> (r: bool)
        ensures
            r == (self.status == PollStatus::Pending),
    {
        self.status == PollStatus::Pending
    }

    /// Takes in the finality flag that one check reported.
    pub fn observe(&mut self, finalized: bool)
        requires
            old(self).wf(),
            old(self).status == PollStatus::Pending,
        ensures
            *final(self) == old(self).step(finalized),
            final(self).wf(),
    {
        self.attempts = self.attempts + 1;
        if finalized {
            self.status = PollStatus::Finalized;
        } else if self.attempts >= self.max_attempts {
            self.status = PollStatus::TimedOut;
        }
    }
}

/// A poll ends `Finalized` only after a check reported `true`, all checks
/// before it having reported `false`, and within the attempt budget.
pub proof fn lemma_finalized_only_after_true(p: Poller, flags: Seq<bool>)
    requires
        p.wf(),
        p.status == PollStatus::Pending,
        p.run(flags).status == PollStatus::Finalized,
    ensures
        exists|i: int|
            0 <= i < flags.len() && flags[i] && p.attempts + i < p.max_attempts
                && p.run(flags).attempts == p.attempts + i + 1
                && forall|j: int| 0 <= j < i ==> !flags[j],
    decreases flags.len(),
{
    let q = p.step(flags[0]);
    if flags[0] {
        assert(flags.drop_first().len() == 0 || q.status != PollStatus::Pending);
        assert(p.run(flags) == q);
        assert(0 <= 0 < flags.len() && flags[0] && p.attempts + 0 < p.max_attempts
            && p.run(flags).attempts == p.attempts + 0 + 1
            && forall|j: int| 0 <= j < 0 ==> !flags[j]);
    } else {
        let rest = flags.drop_first();
        assert(q.status == PollStatus::Pending);
        lemma_finalized_only_after_true(q, rest);
        let i = choose|i: int|
            0 <= i < rest.len() && rest[i] && q.attempts + i < q.max_attempts
                && q.run(rest).attempts == q.attempts + i + 1
                && forall|j: int| 0 <= j < i ==> !rest[j];
        assert forall|j: int| 0 <= j < i + 1 implies !flags[j] by {
            if j > 0 {
                assert(flags[j] == rest[j - 1]);
            }
        }
        assert(flags[i + 1] == rest[i]);
    }
}

} // verus!
