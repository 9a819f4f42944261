//! Quorum voting over the replies of a section's elders.
//!
//! A query goes to every elder; each elder contributes one outcome, either a
//! reply or a failure. Replies vote for a candidate answer, grouped by a key
//! (the digest of the reply). A candidate wins by majority the moment its
//! votes exceed the threshold `ceil(n / 2)`. Failing that, once more outcomes
//! than the threshold have been seen, the candidate with the most votes wins,
//! a tie keeping the one that reached that count first. When every elder has
//! been heard from and neither rule fired, there is no response.
use crate::digest::{sha3_256, sha3_256_of};
use crate::error::Error;
use vstd::prelude::*;

verus! {

/// One elder's outcome: the vote key and the reply, or `None` for a failure.
pub type Outcome = Option<(Seq<u8>, Seq<u8>)>;

/// The vote key of an outcome (empty for a failure).
pub open spec fn key_of(o: Outcome) -> Seq<u8> {
    match o {
        Some(p) => p.0,
        None => Seq::empty(),
    }
}

/// `ceil(n / 2)`.
pub open spec fn ceil_half(n: nat) -> nat {
    ((n + 1) / 2) as nat
}

/// The number of outcomes that voted for `key`.
pub open spec fn votes_for(outs: Seq<Outcome>, key: Seq<u8>) -> nat
    decreases outs.len(),
{
    if outs.len() == 0 {
        0
    } else {
        votes_for(outs.drop_last(), key) + match outs.last() {
            Some(p) => if p.0 == key { 1nat } else { 0nat },
            None => 0nat,
        }
    }
}

/// The reply that first voted for `key` (empty where none did).
pub open spec fn response_of(outs: Seq<Outcome>, key: Seq<u8>) -> Seq<u8>
    decreases outs.len(),
{
    if outs.len() == 0 {
        Seq::empty()
    } else if votes_for(outs.drop_last(), key) > 0 {
        response_of(outs.drop_last(), key)
    } else {
        match outs.last() {
            Some(p) => if p.0 == key { p.1 } else { Seq::empty() },
            None => Seq::empty(),
        }
    }
}

/// The leading key: the first key to reach the highest vote count so far.
pub open spec fn leader_of(outs: Seq<Outcome>) -> Option<Seq<u8>>
    decreases outs.len(),
{
    if outs.len() == 0 {
        None
    } else {
        let prev = leader_of(outs.drop_last());
        match outs.last() {
            Some(p) => match prev {
                None => Some(p.0),
                Some(l) => if votes_for(outs, p.0) > votes_for(outs, l) { Some(p.0) } else { prev },
            },
            None => prev,
        }
    }
}

/// What the quorum rules make of the outcomes seen so far.
pub ghost enum Verdict {
    Pending,
    Majority(Seq<u8>),
    Fallback(Seq<u8>),
    NoResponse,
}

/// The verdict on `outs` out of `n` elders, checked after the last outcome.
pub open spec fn verdict(n: nat, outs: Seq<Outcome>) -> Verdict {
    let t = ceil_half(n);
    if outs.len() > 0 && outs.last() is Some && votes_for(outs, key_of(outs.last())) > t {
        Verdict::Majority(response_of(outs, key_of(outs.last())))
    } else if outs.len() > t && leader_of(outs) is Some {
        Verdict::Fallback(response_of(outs, leader_of(outs)->0))
    } else if outs.len() >= n {
        Verdict::NoResponse
    } else {
        Verdict::Pending
    }
}

/// The vote threshold for `elder_count` elders: `ceil(elder_count / 2)`.
pub fn vote_threshold(elder_count: usize) -> (r: usize)
    ensures
        r == ceil_half(elder_count as nat),
        2 * r >= elder_count,
        2 * r <= elder_count + 1,
{
    elder_count / 2 + elder_count % 2
}

/// The state of the quorum rules.
#[derive(Debug)]
pub enum Resolution {
    /// More outcomes are needed.
    Pending,
    /// A reply won with more votes than the threshold.
    Majority(Vec<u8>),
    /// No reply passed the threshold; the most popular one was taken.
    Fallback(Vec<u8>),
    /// Every elder was heard from and no reply was chosen.
    NoResponse,
}

impl Resolution {
    pub open spec fn view(&self) -> Verdict {
        match self {
            Resolution::Pending => Verdict::Pending,
            Resolution::Majority(r) => Verdict::Majority(r@),
            Resolution::Fallback(r) => Verdict::Fallback(r@),
            Resolution::NoResponse => Verdict::NoResponse,
        }
    }
}

/// Byte-wise equality of two byte strings.
pub fn bytes_eq(a: &Vec<u8>, b: &Vec<u8>) -> (r: bool)
    ensures
        r == (a@ == b@),
{
    if a.len() != b.len() {
        return false;
    }
    let mut i: usize = 0;
    while i < a.len()
        invariant
            a@.len() == b@.len(),
            i <= a@.len(),
            forall|j: int| 0 <= j < i ==> a@[j] == b@[j],
        decreases a@.len() - i,
    {
        if a[i] != b[i] {
            return false;
        }
        i = i + 1;
    }
    assert(a@ =~= b@);
    true
}

/// The reply carried by an outcome (empty for a failure).
pub open spec fn reply_of(o: Outcome) -> Seq<u8> {
    match o {
        Some(p) => p.1,
        None => Seq::empty(),
    }
}

/// How the vote counts and first replies change when one outcome is added.
pub proof fn lemma_push_outcome(outs: Seq<Outcome>, o: Outcome)
    ensures
        outs.push(o).drop_last() == outs,
        forall|k: Seq<u8>| #[trigger] votes_for(outs.push(o), k) == votes_for(outs, k) + (
            if o is Some && key_of(o) == k { 1nat } else { 0nat }),
        forall|k: Seq<u8>| votes_for(outs, k) > 0 ==> #[trigger] response_of(outs.push(o), k)
            == response_of(outs, k),
        o is Some && votes_for(outs, key_of(o)) == 0 ==> response_of(outs.push(o), key_of(o))
            == reply_of(o),
{
    assert(outs.push(o).drop_last() =~= outs);
}

/// No key has more votes than there are outcomes.
pub proof fn lemma_votes_bounded(outs: Seq<Outcome>, k: Seq<u8>)
    ensures
        votes_for(outs, k) <= outs.len(),
    decreases outs.len(),
{
    if outs.len() > 0 {
        lemma_votes_bounded(outs.drop_last(), k);
    }
}

/// A copy of a byte string.
pub fn copy_bytes(v: &Vec<u8>) -> (r: Vec<u8>)
    ensures
        r@ == v@,
{
    let r = v.clone();
    assert(r@ =~= v@);
    r
}

/// The vote tally of one query.
pub struct QueryTally {
    elder_count: usize,
    threshold: usize,
    keys: Vec<Vec<u8>>,
    replies: Vec<Vec<u8>>,
    votes: Vec<usize>,
    observed: usize,
    leader: Option<usize>,
    last: Option<usize>,
    outcomes: Ghost<Seq<Outcome>>,
}

impl QueryTally {
    /// The outcomes recorded so far, in arrival order.
    pub closed spec fn outcomes(&self) -> Seq<Outcome> {
        self.outcomes@
    }

    /// The number of elders the query went to.
    pub closed spec fn elders(&self) -> nat {
        self.elder_count as nat
    }

    /// The current verdict of the quorum rules.
    pub open spec fn current(&self) -> Verdict {
        verdict(self.elders(), self.outcomes())
    }

    pub closed spec fn wf(&self) -> bool {
        let outs = self.outcomes@;
        let n = self.keys@.len();
        &&& self.replies@.len() == n
        &&& self.votes@.len() == n
        &&& self.observed == outs.len()
        &&& self.observed <= self.elder_count
        &&& self.threshold == ceil_half(self.elder_count as nat)
        &&& forall|i: int| #![trigger self.keys@[i]] 0 <= i < n ==> {
            &&& self.votes@[i] == votes_for(outs, self.keys@[i]@)
            &&& self.votes@[i] >= 1
            &&& self.replies@[i]@ == response_of(outs, self.keys@[i]@)
        }
        &&& forall|i: int, j: int| 0 <= i < j < n ==> self.keys@[i]@ != self.keys@[j]@
        &&& forall|k: Seq<u8>| #[trigger] votes_for(outs, k) > 0 ==> exists|i: int|
            0 <= i < n && self.keys@[i]@ == k
        &&& match self.leader {
            None => leader_of(outs) is None,
            Some(li) => li < n && leader_of(outs) == Some(self.keys@[li as int]@),
        }
        &&& match self.last {
            None => outs.len() == 0 || outs.last() is None,
            Some(i) => i < n && outs.len() > 0 && outs.last() is Some
                && key_of(outs.last()) == self.keys@[i as int]@,
        }
    }

    /// An empty tally for a query sent to `elder_count` elders.
    pub fn new(elder_count: usize) -> (r: Self)
        ensures
            r.wf(),
            r.elders() == elder_count,
            r.outcomes() == Seq::<Outcome>::empty(),
    {
        QueryTally {
            elder_count,
            threshold: vote_threshold(elder_count),
            keys: Vec::new(),
            replies: Vec::new(),
            votes: Vec::new(),
            observed: 0,
            leader: None,
            last: None,
            outcomes: Ghost(Seq::empty()),
        }
    }

    /// The number of outcomes recorded so far.
    pub fn observed(&self) -> (r: usize)
        requires
            self.wf(),
        ensures
            r == self.outcomes().len(),
    {
        self.observed
    }

    /// The index of the candidate with vote key `key`, if any.
    fn find_candidate(&self, key: &Vec<u8>) -> (r: Option<usize>)
        requires
            self.wf(),
        ensures
            match r {
                Some(i) => i < self.keys@.len() && self.keys@[i as int]@ == key@,
                None => forall|j: int| 0 <= j < self.keys@.len() ==> self.keys@[j]@ != key@,
            },
    {
        let mut i: usize = 0;
        while i < self.keys.len()
            invariant
                i <= self.keys@.len(),
                forall|j: int| 0 <= j < i ==> self.keys@[j]@ != key@,
            decreases self.keys@.len() - i,
        {
            if bytes_eq(&self.keys[i], key) {
                return Some(i);
            }
            i = i + 1;
        }
        None
    }

    /// Records a reply whose vote key is `key`.
    pub fn record_reply_keyed(&mut self, key: Vec<u8>, response: Vec<u8>)
        requires
            old(self).wf(),
            old(self).current() == Verdict::Pending,
        ensures
            final(self).wf(),
            final(self).elders() == old(self).elders(),
            final(self).outcomes() == old(self).outcomes().push(Some((key@, response@))),
    {
        let ghost old_outs = self.outcomes@;
        let ghost old_keys = self.keys@;
        let ghost o: Outcome = Some((key@, response@));
        let ghost new_outs = old_outs.push(o);
        proof {
            lemma_push_outcome(old_outs, o);
            lemma_votes_bounded(old_outs, key@);
        }
        let found = self.find_candidate(&key);
        let i: usize = match found {
            Some(i) => {
                let v = self.votes[i];
                self.votes.set(i, v + 1);
                i
            }
            None => {
                assert(votes_for(old_outs, key@) == 0);
                self.keys.push(key);
                self.replies.push(response);
                self.votes.push(1);
                self.keys.len() - 1
            }
        };
        self.leader = match self.leader {
            None => Some(i),
            Some(li) => if self.votes[i] > self.votes[li] { Some(i) } else { Some(li) },
        };
        self.last = Some(i);
        self.observed = self.observed + 1;
        self.outcomes = Ghost(new_outs);
        assert(leader_of(new_outs) == match leader_of(old_outs) {
            None => Some(key@),
            Some(l) => if votes_for(new_outs, key@) > votes_for(new_outs, l) { Some(key@) } else { Some(l) },
        });
        assert forall|k: Seq<u8>| #[trigger] votes_for(new_outs, k) > 0 implies exists|j: int|
            0 <= j < self.keys@.len() && self.keys@[j]@ == k by {
            if k != key@ {
                assert(votes_for(old_outs, k) > 0);
                let j = choose|j: int| 0 <= j < old_keys.len() && old_keys[j]@ == k;
                assert(self.keys@[j]@ == k);
            } else {
                assert(self.keys@[i as int]@ == k);
            }
        }
    }

    /// Records a failed or timed-out elder.
    pub fn record_failure(&mut self)
        requires
            old(self).wf(),
            old(self).current() == Verdict::Pending,
        ensures
            final(self).wf(),
            final(self).elders() == old(self).elders(),
            final(self).outcomes() == old(self).outcomes().push(None),
    {
        let ghost old_outs = self.outcomes@;
        let ghost new_outs = old_outs.push(None);
        proof {
            lemma_push_outcome(old_outs, None);
        }
        self.last = None;
        self.observed = self.observed + 1;
        self.outcomes = Ghost(new_outs);
        assert(leader_of(new_outs) == leader_of(old_outs));
        assert forall|k: Seq<u8>| #[trigger] votes_for(new_outs, k) > 0 implies exists|j: int|
            0 <= j < self.keys@.len() && self.keys@[j]@ == k by {
            assert(votes_for(old_outs, k) > 0);
            let j = choose|j: int| 0 <= j < self.keys@.len() && self.keys@[j]@ == k;
        }
    }

    /// Records a reply, voting under the SHA3-256 digest of its bytes.
    pub fn record_reply(&mut self, response: Vec<u8>)
        requires
            old(self).wf(),
            old(self).current() == Verdict::Pending,
        ensures
            final(self).wf(),
            final(self).elders() == old(self).elders(),
            final(self).outcomes() == old(self).outcomes().push(
                Some((sha3_256_of(response@), response@)),
            ),
    {
        let key = sha3_256(&response);
        self.record_reply_keyed(key, response);
    }

    /// The vote key of the leading candidate, if any reply was recorded.
    pub fn leader_key(&self) -> (r: Option<Vec<u8>>)
        requires
            self.wf(),
        ensures
            match r {
                Some(k) => leader_of(self.outcomes()) == Some(k@),
                None => leader_of(self.outcomes()) is None,
            },
    {
        match self.leader {
            Some(li) => Some(copy_bytes(&self.keys[li])),
            None => None,
        }
    }

    /// The fallback choice: once more outcomes than the threshold have been
    /// seen, the reply of the leading candidate.
    pub fn select_best_of_the_rest_response(&self) -> (r: Option<Vec<u8>>)
        requires
            self.wf(),
        ensures
            match r {
                Some(resp) => self.outcomes().len() > ceil_half(self.elders())
                    && leader_of(self.outcomes()) is Some
                    && resp@ == response_of(self.outcomes(), leader_of(self.outcomes())->0),
                None => self.outcomes().len() <= ceil_half(self.elders())
                    || leader_of(self.outcomes()) is None,
            },
    {
        if self.observed > self.threshold {
            match self.leader {
                Some(li) => Some(copy_bytes(&self.replies[li])),
                None => None,
            }
        } else {
            None
        }
    }

    /// Applies the quorum rules to the outcomes recorded so far.
    pub fn resolution(&self) -> (r: Resolution)
        requires
            self.wf(),
        ensures
            r@ == self.current(),
    {
        if let Some(i) = self.last {
            if self.votes[i] > self.threshold {
                return Resolution::Majority(copy_bytes(&self.replies[i]));
            }
        }
        match self.select_best_of_the_rest_response() {
            Some(resp) => Resolution::Fallback(resp),
            None => if self.observed >= self.elder_count {
                Resolution::NoResponse
            } else {
                Resolution::Pending
            },
        }
    }
}

/// The verdict at the first point where the quorum rules settle; the
/// verdict on all of `outs` where they never do.
pub open spec fn settle(n: nat, outs: Seq<Outcome>) -> Verdict
    decreases outs.len(),
{
    if outs.len() == 0 {
        verdict(n, outs)
    } else {
        let d = settle(n, outs.drop_last());
        if d == Verdict::Pending {
            verdict(n, outs)
        } else {
            d
        }
    }
}

/// The outcomes of a query's replies, each reply voting under its digest.
pub open spec fn outcomes_of(replies: Seq<Option<Vec<u8>>>) -> Seq<Outcome> {
    replies.map_values(
        |r: Option<Vec<u8>>|
            match r {
                Some(b) => Some((sha3_256_of(b@), b@)),
                None => None,
            },
    )
}

/// Once settled, the verdict stays what it was, whatever comes after.
pub proof fn lemma_settle_stable(n: nat, outs: Seq<Outcome>, i: int)
    requires
        0 <= i <= outs.len(),
        settle(n, outs.take(i)) != Verdict::Pending,
    ensures
        settle(n, outs) == settle(n, outs.take(i)),
    decreases outs.len(),
{
    if outs.len() == i {
        assert(outs.take(i) =~= outs);
    } else {
        assert(outs.drop_last().take(i) =~= outs.take(i));
        lemma_settle_stable(n, outs.drop_last(), i);
    }
}

/// Resolves a query sent to `elder_count` elders from the outcomes of the
/// elders that answered or failed, in arrival order (`None` for a failure).
/// Outcomes after the point where the quorum rules settle are not looked at.
pub fn resolve_query(elder_count: usize, replies: &Vec<Option<Vec<u8>>>) -> (r: Result<
    Vec<u8>,
    Error,
>)
    requires
        replies@.len() <= elder_count,
    ensures
        match settle(elder_count as nat, outcomes_of(replies@)) {
            Verdict::Majority(b) => r is Ok && r->Ok_0@ == b,
            Verdict::Fallback(b) => r is Ok && r->Ok_0@ == b,
            _ => r == Err::<Vec<u8>, Error>(Error::NoResponse),
        },
{
    let ghost outs = outcomes_of(replies@);
    let mut tally = QueryTally::new(elder_count);
    let mut i: usize = 0;
    while i < replies.len()
        invariant
            i <= replies@.len(),
            replies@.len() <= elder_count,
            outs == outcomes_of(replies@),
            tally.wf(),
            tally.elders() == elder_count,
            tally.outcomes() == outs.take(i as int),
            settle(elder_count as nat, outs.take(i as int)) == tally.current(),
        decreases replies@.len() - i,
    {
        let res = tally.resolution();
        match res {
            Resolution::Pending => {},
            Resolution::Majority(b) => {
                proof {
                    lemma_settle_stable(elder_count as nat, outs, i as int);
                }
                return Ok(b);
            },
            Resolution::Fallback(b) => {
                proof {
                    lemma_settle_stable(elder_count as nat, outs, i as int);
                }
                return Ok(b);
            },
            Resolution::NoResponse => {
                proof {
                    lemma_settle_stable(elder_count as nat, outs, i as int);
                }
                return Err(Error::NoResponse);
            },
        }
        match &replies[i] {
            Some(b) => tally.record_reply(copy_bytes(b)),
            None => tally.record_failure(),
        }
        proof {
            assert(outs.take(i + 1) =~= outs.take(i as int).push(outs[i as int]));
            assert(outs.take(i + 1).drop_last() =~= outs.take(i as int));
        }
        i = i + 1;
    }
    proof {
        assert(outs.take(i as int) =~= outs);
    }
    match tally.resolution() {
        Resolution::Majority(b) => Ok(b),
        Resolution::Fallback(b) => Ok(b),
        _ => Err(Error::NoResponse),
    }
}

/// The threshold is `ceil(n / 2)`, and a reply wins by majority only with
/// strictly more votes than the threshold.
pub proof fn lemma_majority_exceeds_threshold(n: nat, outs: Seq<Outcome>)
    ensures
        2 * ceil_half(n) >= n,
        2 * ceil_half(n) <= n + 1,
        verdict(n, outs) is Majority ==> exists|k: Seq<u8>|
            #[trigger] votes_for(outs, k) > ceil_half(n) && verdict(n, outs)
                == Verdict::Majority(response_of(outs, k)),
{
    if verdict(n, outs) is Majority {
        let k = key_of(outs.last());
        assert(votes_for(outs, k) > ceil_half(n));
    }
}

/// The leading key has at least as many votes as any other key.
pub proof fn lemma_leader_has_most_votes(outs: Seq<Outcome>, k: Seq<u8>)
    ensures
        match leader_of(outs) {
            Some(l) => votes_for(outs, k) <= votes_for(outs, l),
            None => votes_for(outs, k) == 0,
        },
    decreases outs.len(),
{
    if outs.len() > 0 {
        let prev = outs.drop_last();
        lemma_push_outcome(prev, outs.last());
        assert(prev.push(outs.last()) =~= outs);
        lemma_leader_has_most_votes(prev, k);
        if let Some(l) = leader_of(prev) {
            lemma_leader_has_most_votes(prev, key_of(outs.last()));
        }
    }
}

/// A reply that only ties the leading key leaves the lead where it was.
pub proof fn lemma_tie_keeps_incumbent(outs: Seq<Outcome>, key: Seq<u8>, reply: Seq<u8>)
    requires
        leader_of(outs) is Some,
        votes_for(outs.push(Some((key, reply))), key) == votes_for(
            outs.push(Some((key, reply))),
            leader_of(outs)->0,
        ),
    ensures
        leader_of(outs.push(Some((key, reply)))) == leader_of(outs),
{
    lemma_push_outcome(outs, Some((key, reply)));
}

} // verus!
