//! Election of the best server by score.

use vstd::prelude::*;
use crate::score::{Score, ServerLatency, window_push, window_score, MAX_LATENCY_QUEUE_SIZE};
use crate::server::{Server, ServerType};

verus! {

/// Whether `idx` is the server that an election over `scores` chooses: one
/// with the lowest score, and among those the first.
pub open spec fn is_elected(scores: Seq<u64>, idx: int) -> bool {
    &&& 0 <= idx < scores.len()
    &&& forall|j: int| 0 <= j < scores.len() ==> scores[idx] <= #[trigger] scores[j]
    &&& forall|j: int| 0 <= j < idx ==> scores[idx] < #[trigger] scores[j]
}

/// At most one index is elected.
pub proof fn lemma_elected_unique(scores: Seq<u64>, a: int, b: int)
    requires
        is_elected(scores, a),
        is_elected(scores, b),
    ensures
        a == b,
{
    if a < b {
        assert(scores[a] <= scores[b]);
    } else if b < a {
        assert(scores[b] <= scores[a]);
    }
}

/// Where there is but one server it is elected, whatever its score: an
/// election never moves a balancer with one server away from it.
pub proof fn lemma_single_server_elected(scores: Seq<u64>, idx: int)
    requires
        scores.len() == 1,
    ensures
        is_elected(scores, idx) <==> idx == 0,
{
}

/// How a probe ended.
#[derive(Debug, Clone, Copy, PartialEq, Eq)]
pub enum ProbeResult {
    /// The server answered within the timeout.
    Completed,
    /// Connecting, the handshake or the exchange failed within the timeout.
    Failed,
    /// The timeout passed before anything else happened.
    TimedOut,
}

/// The time that a probe took, in milliseconds.
pub open spec fn elapsed_ms(secs: u64, subsec_millis: u32) -> int {
    secs * 1000 + subsec_millis
}

/// The latency that a probe yields: the time it took where the server
/// answered or was merely too slow, nothing where the probe failed.
pub open spec fn probe_delay(res: ProbeResult, secs: u64, subsec_millis: u32) -> Option<u64> {
    match res {
        ProbeResult::Completed | ProbeResult::TimedOut => Some(
            elapsed_ms(secs, subsec_millis) as u64,
        ),
        ProbeResult::Failed => None,
    }
}

/// The outcome that enters the window for a probe's delay.
pub open spec fn probe_outcome(delay: Option<u64>) -> Score {
    match delay {
        Some(d) => Score::Latency(d),
        None => Score::Errored,
    }
}

/// Classifies a finished probe from how it ended and the time that passed
/// from just before it to just after it, given as whole seconds and the
/// milliseconds beyond them. A server that timed out is slow, not down.
pub fn check_delay(res: ProbeResult, elapsed_secs: u64, elapsed_subsec_millis: u32) -> (r: Option<
    u64,
>)
    requires
        elapsed_ms(elapsed_secs, elapsed_subsec_millis) <= u64::MAX,
    ensures
        r == probe_delay(res, elapsed_secs, elapsed_subsec_millis),
{
    let elapsed: u64 = elapsed_secs * 1000 + elapsed_subsec_millis as u64;
    match res {
        ProbeResult::Completed => Some(elapsed),
        ProbeResult::Failed => None,
        ProbeResult::TimedOut => Some(elapsed),
    }
}

/// The servers of a balancer and the index of the one that is best.
pub struct Inner<S: Server> {
    servers: Vec<S>,
    best_idx: usize,
}

impl<S: Server> Inner<S> {
    /// The servers, in the order in which they were given.
    pub closed spec fn servers(&self) -> Seq<S> {
        self.servers@
    }

    /// The index of the server that is best at present.
    pub closed spec fn best(&self) -> int {
        self.best_idx as int
    }

    /// The scores of the servers, in their order.
    pub open spec fn scores(&self) -> Seq<u64> {
        Seq::new(self.servers().len(), |i: int| self.servers()[i].spec_score())
    }

    /// There is at least one server, and the best index points at one.
    pub open spec fn wf(&self) -> bool {
        0 <= self.best() < self.servers().len()
    }

    /// A balancer state over `servers`, with the first of them as the best.
    pub fn new(servers: Vec<S>) -> (r: Inner<S>)
        requires
            servers@.len() >= 1,
        ensures
            r.wf(),
            r.servers() == servers@,
            r.best() == 0,
    {
        Inner { servers, best_idx: 0 }
    }

    /// Whether servers are to be probed at all: only where there is a choice.
    pub fn checking_required(&self) -> (r: bool)
        ensures
            r == (self.servers().len() > 1),
    {
        self.servers.len() > 1
    }

    /// Enters what a probe of `sc` found into the window `latency` and
    /// stores the score that follows with the server.
    pub fn check_update_score(latency: &mut ServerLatency, sc: &mut S, delay: Option<u64>) -> (score:
        u64)
        requires
            old(latency).wf(),
        ensures
            final(latency).wf(),
            final(latency)@ == window_push(old(latency)@, probe_outcome(delay)),
            score == window_score(final(latency)@),
            final(sc).spec_score() == score,
            final(sc).spec_config() == old(sc).spec_config(),
    {
        let score = match delay {
            Some(d) => latency.push(Score::Latency(d)),
            None => latency.push(Score::Errored),
        };
        sc.set_score(score);
        score
    }

    /// The index of the server that is best at present.
    pub fn best_idx(&self) -> (r: usize)
        ensures
            r == self.best(),
    {
        self.best_idx
    }

    /// Makes the server at `idx` the best.
    pub fn set_best_idx(&mut self, idx: usize)
        requires
            idx < old(self).servers().len(),
        ensures
            final(self).best() == idx,
            final(self).servers() == old(self).servers(),
            final(self).wf(),
    {
        self.best_idx = idx;
    }

    /// The server that is best at present.
    pub fn best_server(&self) -> (r: &S)
        requires
            self.wf(),
        ensures
            *r == self.servers()[self.best()],
    {
        &self.servers[self.best_idx]
    }

    /// The server at `idx`.
    pub fn server(&self, idx: usize) -> (r: &S)
        requires
            idx < self.servers().len(),
        ensures
            *r == self.servers()[idx as int],
    {
        &self.servers[idx]
    }

    /// The number of servers.
    pub fn total_server(&self) -> (r: usize)
        ensures
            r == self.servers().len(),
    {
        self.servers.len()
    }

    /// Elects the server with the lowest score, the first of them where
    /// several share it, and makes it the best. Where that changes the best
    /// server, returns the one that was best and the one that is.
    pub fn choose_best_server(&mut self) -> (r: Option<(&S, &S)>)
        requires
            old(self).wf(),
        ensures
            final(self).wf(),
            final(self).servers() == old(self).servers(),
            is_elected(old(self).scores(), final(self).best()),
            match r {
                Some((last, chosen)) => {
                    &&& final(self).best() != old(self).best()
                    &&& *last == old(self).servers()[old(self).best()]
                    &&& *chosen == old(self).servers()[final(self).best()]
                },
                None => final(self).best() == old(self).best(),
            },
    {
        let mut choosen_idx: usize = 0;
        let mut idx: usize = 0;
        while idx < self.servers.len()
            invariant
                idx <= self.servers.len(),
                self.servers.len() >= 1,
                choosen_idx < self.servers.len(),
                choosen_idx <= idx,
                idx > 0 ==> is_elected(self.scores().take(idx as int), choosen_idx as int),
                idx == 0 ==> choosen_idx == 0,
                *self == *old(self),
            decreases self.servers.len() - idx,
        {
            if self.servers[idx].score() < self.servers[choosen_idx].score() {
                choosen_idx = idx;
            }
            idx += 1;
        }
        assert(self.scores().take(idx as int) == self.scores());
        let best_idx = self.best_idx;
        if choosen_idx != best_idx {
            self.best_idx = choosen_idx;
            Some((&self.servers[best_idx], &self.servers[choosen_idx]))
        } else {
            None
        }
    }
}

/// What an election pass found.
#[derive(Debug, Clone, Copy, PartialEq, Eq)]
pub enum Election {
    /// The best server is the one it was.
    Unchanged,
    /// The best server changed from `last` to `best`. The switch is to be
    /// announced unless this was the first pass, which only primes the state.
    Switched { last: usize, best: usize, announce: bool },
}

/// Load balancer based on pinging latencies of all servers
pub struct PingBalancer<S: Server> {
    inner: Inner<S>,
    latencies: Vec<ServerLatency>,
    server_type: ServerType,
    primed: bool,
}

impl<S: Server> PingBalancer<S> {
    /// The servers, in the order in which they were given.
    pub closed spec fn servers(&self) -> Seq<S> {
        self.inner.servers()
    }

    /// The index of the server that `pick_server` returns.
    pub closed spec fn best(&self) -> int {
        self.inner.best()
    }

    /// The scores of the servers, in their order.
    pub open spec fn scores(&self) -> Seq<u64> {
        Seq::new(self.servers().len(), |i: int| self.servers()[i].spec_score())
    }

    /// The window of probe outcomes kept for each server.
    pub closed spec fn windows(&self) -> Seq<Seq<Score>> {
        Seq::new(self.latencies@.len(), |i: int| self.latencies@[i]@)
    }

    /// What the servers are probed with.
    pub closed spec fn kind(&self) -> ServerType {
        self.server_type
    }

    /// Whether an election has run.
    pub closed spec fn primed(&self) -> bool {
        self.primed
    }

    /// The best index points at a server, and each server has its window.
    pub closed spec fn wf(&self) -> bool {
        &&& self.inner.wf()
        &&& self.latencies@.len() == self.inner.servers().len()
        &&& forall|i: int| 0 <= i < self.latencies@.len() ==> (#[trigger] self.latencies@[i]).wf()
    }

    /// What `wf` says to the outside: the best index points at a server,
    /// and each server has its window, which is not longer than a window
    /// may be.
    pub proof fn lemma_wf(&self)
        requires
            self.wf(),
        ensures
            0 <= self.best() < self.servers().len(),
            self.windows().len() == self.servers().len(),
            forall|i: int|
                0 <= i < self.windows().len() ==> (#[trigger] self.windows()[i]).len()
                    <= MAX_LATENCY_QUEUE_SIZE,
    {
    }

    /// A balancer with one server has that server as its best, and an
    /// election leaves it so.
    pub proof fn lemma_single_server(&self)
        requires
            self.wf(),
            self.servers().len() == 1,
        ensures
            self.best() == 0,
            is_elected(self.scores(), self.best()),
    {
    }

    /// Create a PingBalancer over `servers`, none of them probed yet and the
    /// first of them the best.
    pub fn new(servers: Vec<S>, server_type: ServerType) -> (r: PingBalancer<S>)
        requires
            servers@.len() >= 1,
        ensures
            r.wf(),
            r.servers() == servers@,
            r.best() == 0,
            r.kind() == server_type,
            !r.primed(),
            r.windows().len() == servers@.len(),
            forall|i: int| 0 <= i < servers@.len() ==> (#[trigger] r.windows()[i]).len() == 0,
    {
        let mut latencies: Vec<ServerLatency> = Vec::new();
        let mut i: usize = 0;
        while i < servers.len()
            invariant
                i <= servers.len(),
                latencies@.len() == i,
                forall|j: int|
                    0 <= j < i ==> (#[trigger] latencies@[j]).wf() && latencies@[j]@.len() == 0,
            decreases servers.len() - i,
        {
            latencies.push(ServerLatency::new());
            i += 1;
        }
        PingBalancer { inner: Inner::new(servers), latencies, server_type, primed: false }
    }

    /// Whether the servers are to be probed and elections to be held.
    pub fn checking_required(&self) -> (r: bool)
        ensures
            r == (self.servers().len() > 1),
    {
        self.inner.checking_required()
    }

    /// What the servers are probed with.
    pub fn server_type(&self) -> (r: ServerType)
        ensures
            r == self.kind(),
    {
        self.server_type
    }

    /// Takes in what a probe of server `idx` found: the outcome enters that
    /// server's window and the score of the window becomes the server's
    /// score, which is returned.
    pub fn check_update_score(&mut self, idx: usize, delay: Option<u64>) -> (score: u64)
        requires
            old(self).wf(),
            idx < old(self).servers().len(),
        ensures
            final(self).wf(),
            final(self).windows() == old(self).windows().update(
                idx as int,
                window_push(old(self).windows()[idx as int], probe_outcome(delay)),
            ),
            score == window_score(final(self).windows()[idx as int]),
            final(self).servers().len() == old(self).servers().len(),
            final(self).servers()[idx as int].spec_score() == score,
            final(self).servers()[idx as int].spec_config() == old(self).servers()[idx as int].spec_config(),
            forall|j: int|
                0 <= j < old(self).servers().len() && j != idx ==> final(self).servers()[j]
                    == old(self).servers()[j],
            final(self).best() == old(self).best(),
            final(self).kind() == old(self).kind(),
            final(self).primed() == old(self).primed(),
    {
        let score = Inner::check_update_score(
            &mut self.latencies[idx],
            &mut self.inner.servers[idx],
            delay,
        );
        score
    }

    /// Holds one election: the server with the lowest score, the first of
    /// them where several share it, becomes the best. Tells whether that
    /// changed the best server, and whether to announce the change: the
    /// first election only primes the balancer and is never announced.
    pub fn election_pass(&mut self) -> (r: Election)
        requires
            old(self).wf(),
        ensures
            final(self).wf(),
            final(self).servers() == old(self).servers(),
            final(self).windows() == old(self).windows(),
            final(self).kind() == old(self).kind(),
            final(self).primed(),
            is_elected(old(self).scores(), final(self).best()),
            r == if final(self).best() == old(self).best() {
                Election::Unchanged
            } else {
                Election::Switched {
                    last: old(self).best() as usize,
                    best: final(self).best() as usize,
                    announce: old(self).primed(),
                }
            },
    {
        let last = self.inner.best_idx();
        let announce = self.primed;
        self.primed = true;
        let switched = self.inner.choose_best_server().is_some();
        if switched {
            Election::Switched { last, best: self.inner.best_idx(), announce }
        } else {
            Election::Unchanged
        }
    }

    /// The index of the server that is best at present.
    pub fn best_idx(&self) -> (r: usize)
        ensures
            r == self.best(),
    {
        self.inner.best_idx()
    }

    /// The server at `idx`.
    pub fn server(&self, idx: usize) -> (r: &S)
        requires
            idx < self.servers().len(),
        ensures
            *r == self.servers()[idx as int],
    {
        self.inner.server(idx)
    }

    /// Pick the server that is best at present.
    pub fn pick_server(&self) -> (r: &S)
        requires
            self.wf(),
        ensures
            *r == self.servers()[self.best()],
    {
        self.inner.best_server()
    }

    /// The number of servers.
    pub fn total(&self) -> (r: usize)
        ensures
            r == self.servers().len(),
    {
        self.inner.total_server()
    }
}

} // verus!
