//! Accounting of the connections made to a section's elders.
//!
//! Each elder is connected to by a task of its own; the tasks finish in any
//! order, each with the elder's address or a failure. The session proceeds
//! as soon as `STANDARD_ELDERS_COUNT` elders are connected, or once every
//! task has finished; it fails if fewer than `MIN_ELDERS_COUNT` were reached.
use crate::connection_manager::{ConnectionManager, MIN_ELDERS_COUNT, STANDARD_ELDERS_COUNT};
use crate::error::Error;
use crate::ids::PeerAddr;
use vstd::prelude::*;

verus! {

/// The elders connected by the outcomes `outs` (`None` for a failure).
pub open spec fn connected_of(outs: Seq<Option<PeerAddr>>) -> Set<PeerAddr>
    decreases outs.len(),
{
    if outs.len() == 0 {
        Set::empty()
    } else {
        let s = connected_of(outs.drop_last());
        match outs.last() {
            Some(p) => s.insert(p),
            None => s,
        }
    }
}

/// Where the connections to the elders stand.
pub ghost enum Connectivity {
    Waiting,
    Connected(Set<PeerAddr>),
    Insufficient,
}

/// The state after the outcomes `outs` of `attempted` connection tasks.
pub open spec fn connectivity(attempted: nat, outs: Seq<Option<PeerAddr>>) -> Connectivity {
    let c = connected_of(outs);
    if c.len() >= STANDARD_ELDERS_COUNT || outs.len() >= attempted {
        if c.len() < MIN_ELDERS_COUNT {
            Connectivity::Insufficient
        } else {
            Connectivity::Connected(c)
        }
    } else {
        Connectivity::Waiting
    }
}

/// The state at the first point where the connections settle.
pub open spec fn connect_settle(attempted: nat, outs: Seq<Option<PeerAddr>>) -> Connectivity
    decreases outs.len(),
{
    if outs.len() == 0 {
        connectivity(attempted, outs)
    } else {
        let d = connect_settle(attempted, outs.drop_last());
        if d == Connectivity::Waiting {
            connectivity(attempted, outs)
        } else {
            d
        }
    }
}

/// The connected set is finite and grows with each outcome.
pub proof fn lemma_connected_grows(outs: Seq<Option<PeerAddr>>)
    ensures
        connected_of(outs).finite(),
        outs.len() > 0 ==> connected_of(outs.drop_last()).subset_of(connected_of(outs)),
        outs.len() > 0 ==> connected_of(outs.drop_last()).len() <= connected_of(outs).len(),
    decreases outs.len(),
{
    if outs.len() > 0 {
        lemma_connected_grows(outs.drop_last());
        vstd::set_lib::lemma_len_subset(connected_of(outs.drop_last()), connected_of(outs));
    }
}

/// Connections stay unsettled while tasks are left and fewer than the
/// standard number of elders are connected.
proof fn lemma_still_waiting(attempted: nat, outs: Seq<Option<PeerAddr>>)
    requires
        outs.len() < attempted,
        connected_of(outs).len() < STANDARD_ELDERS_COUNT,
    ensures
        connect_settle(attempted, outs) == Connectivity::Waiting,
    decreases outs.len(),
{
    if outs.len() > 0 {
        lemma_connected_grows(outs);
        lemma_still_waiting(attempted, outs.drop_last());
    }
}

/// Once settled, the state stays what it was.
pub proof fn lemma_connect_settle_stable(attempted: nat, outs: Seq<Option<PeerAddr>>, i: int)
    requires
        0 <= i <= outs.len(),
        connect_settle(attempted, outs.take(i)) != Connectivity::Waiting,
    ensures
        connect_settle(attempted, outs) == connect_settle(attempted, outs.take(i)),
    decreases outs.len(),
{
    if outs.len() == i {
        assert(outs.take(i) =~= outs);
    } else {
        assert(outs.drop_last().take(i) =~= outs.take(i));
        lemma_connect_settle_stable(attempted, outs.drop_last(), i);
    }
}

/// Where every connection task has finished and fewer than
/// `MIN_ELDERS_COUNT` elders were reached, the connections fail as
/// insufficient.
pub proof fn lemma_too_few_elders_fail(outs: Seq<Option<PeerAddr>>)
    requires
        connected_of(outs).len() < MIN_ELDERS_COUNT,
    ensures
        connect_settle(outs.len(), outs) == Connectivity::Insufficient,
{
    if outs.len() > 0 {
        lemma_connected_grows(outs);
        lemma_still_waiting(outs.len(), outs.drop_last());
    }
}

/// The connection outcomes gathered so far for one set of elders.
pub struct ElderConnections {
    attempted: usize,
    finished: usize,
    connected: Vec<PeerAddr>,
    outcomes: Ghost<Seq<Option<PeerAddr>>>,
}

/// Where the connections to the elders stand.
#[derive(Debug)]
pub enum ConnectStatus {
    /// More outcomes are needed.
    Waiting,
    /// Enough elders are connected; these ones, each once.
    Connected(Vec<PeerAddr>),
    /// Too few elders could be connected.
    Failed(Error),
}

impl ElderConnections {
    /// The outcomes recorded so far, in the order the tasks finished.
    pub closed spec fn outcomes(&self) -> Seq<Option<PeerAddr>> {
        self.outcomes@
    }

    /// The number of connection tasks.
    pub closed spec fn attempted(&self) -> nat {
        self.attempted as nat
    }

    pub closed spec fn wf(&self) -> bool {
        &&& self.finished == self.outcomes@.len()
        &&& self.finished <= self.attempted
        &&& self.connected@.no_duplicates()
        &&& self.connected@.to_set() == connected_of(self.outcomes@)
    }

    /// The current state of the connections.
    pub open spec fn current(&self) -> Connectivity {
        connectivity(self.attempted(), self.outcomes())
    }

    /// No outcomes yet of `attempted` connection tasks.
    pub fn new(attempted: usize) -> (r: Self)
        ensures
            r.wf(),
            r.attempted() == attempted,
            r.outcomes() == Seq::<Option<PeerAddr>>::empty(),
    {
        let r = ElderConnections {
            attempted,
            finished: 0,
            connected: Vec::new(),
            outcomes: Ghost(Seq::empty()),
        };
        assert(r.connected@.to_set() =~= Set::<PeerAddr>::empty());
        r
    }

    /// Records the outcome of one connection task: the elder's address, or
    /// `None` where it could not be connected.
    pub fn record(&mut self, outcome: Option<PeerAddr>)
        requires
            old(self).wf(),
            old(self).current() == Connectivity::Waiting,
        ensures
            final(self).wf(),
            final(self).attempted() == old(self).attempted(),
            final(self).outcomes() == old(self).outcomes().push(outcome),
    {
        let ghost old_outs = self.outcomes@;
        let ghost new_outs = old_outs.push(outcome);
        proof {
            assert(new_outs.drop_last() =~= old_outs);
        }
        if let Some(p) = outcome {
            let mut j: usize = 0;
            let mut seen = false;
            while j < self.connected.len()
                invariant
                    j <= self.connected@.len(),
                    seen <==> exists|k: int| 0 <= k < j && self.connected@[k] == p,
                decreases self.connected@.len() - j,
            {
                if self.connected[j] == p {
                    seen = true;
                }
                j = j + 1;
            }
            let ghost old_c = self.connected@;
            if !seen {
                self.connected.push(p);
                proof {
                    old_c.lemma_push_to_set_commute(p);
                    assert(self.connected@ == old_c.push(p));
                }
            } else {
                proof {
                    let k = choose|k: int| 0 <= k < j && old_c[k] == p;
                    assert(old_c.contains(p));
                    assert(old_c.to_set().contains(p));
                    assert(old_c.to_set().insert(p) =~= old_c.to_set());
                }
            }
        }
        self.finished = self.finished + 1;
        self.outcomes = Ghost(new_outs);
    }

    /// The current state of the connections.
    pub fn status(&self) -> (r: ConnectStatus)
        requires
            self.wf(),
        ensures
            match self.current() {
                Connectivity::Waiting => r is Waiting,
                Connectivity::Connected(c) => r is Connected && r->Connected_0@.no_duplicates()
                    && r->Connected_0@.to_set() == c,
                Connectivity::Insufficient => r == ConnectStatus::Failed(
                    Error::InsufficientElderConnections,
                ),
            },
    {
        proof {
            self.connected@.unique_seq_to_set();
        }
        let n = self.connected.len();
        if n >= STANDARD_ELDERS_COUNT || self.finished >= self.attempted {
            if n < MIN_ELDERS_COUNT {
                ConnectStatus::Failed(Error::InsufficientElderConnections)
            } else {
                ConnectStatus::Connected(self.connected.clone())
            }
        } else {
            ConnectStatus::Waiting
        }
    }
}

impl ConnectionManager {
    /// Decides the elders of a session from the outcomes of the connection
    /// tasks, one per elder, in the order they finished (`None` where an
    /// elder could not be connected). Outcomes after the point where the
    /// connections settle are not looked at.
    pub fn connect_to_elders(outcomes: &Vec<Option<PeerAddr>>) -> (r: Result<Vec<PeerAddr>, Error>)
        ensures
            match connect_settle(outcomes@.len(), outcomes@) {
                Connectivity::Connected(c) => r is Ok && r->Ok_0@.no_duplicates() && r->Ok_0@.to_set()
                    == c,
                _ => r == Err::<Vec<PeerAddr>, Error>(Error::InsufficientElderConnections),
            },
    {
        let ghost outs = outcomes@;
        let mut conns = ElderConnections::new(outcomes.len());
        let mut i: usize = 0;
        while i < outcomes.len()
            invariant
                i <= outcomes@.len(),
                outs == outcomes@,
                conns.wf(),
                conns.attempted() == outs.len(),
                conns.outcomes() == outs.take(i as int),
                connect_settle(outs.len(), outs.take(i as int)) == conns.current(),
            decreases outcomes@.len() - i,
        {
            match conns.status() {
                ConnectStatus::Waiting => {},
                ConnectStatus::Connected(c) => {
                    proof {
                        lemma_connect_settle_stable(outs.len(), outs, i as int);
                    }
                    return Ok(c);
                },
                ConnectStatus::Failed(e) => {
                    proof {
                        lemma_connect_settle_stable(outs.len(), outs, i as int);
                    }
                    return Err(e);
                },
            }
            conns.record(outcomes[i]);
            proof {
                assert(outs.take(i + 1).drop_last() =~= outs.take(i as int));
            }
            i = i + 1;
        }
        proof {
            assert(outs.take(i as int) =~= outs);
        }
        match conns.status() {
            ConnectStatus::Connected(c) => Ok(c),
            _ => Err(Error::InsufficientElderConnections),
        }
    }
}

} // verus!
