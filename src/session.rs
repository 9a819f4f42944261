//! The session: the state shared by a client's queries, commands and
//! message listener, and how section info messages change it.
use crate::connection_manager::{
    forwards_to_transfer, ClientMsgKind, ConnectionManager, Route, MAX_REDIRECTS,
};
use crate::error::Error;
use crate::ids::{MessageId, PeerAddr, QueryKey};
use crate::registry::{PendingQueries, PendingTransfers, Registry};
use vstd::prelude::*;

verus! {

/// The elders of a section and the section's public key set.
pub struct SectionInfo<K> {
    pub elders: Vec<PeerAddr>,
    pub pk_set: K,
}

/// A section info message, as far as the session acts on it.
pub enum SectionInfoMsg<K> {
    /// The section's elders and key set.
    Success(SectionInfo<K>),
    /// Other contacts to ask for the section.
    Redirect(Vec<PeerAddr>),
    /// An interruption by a change in the network, with the new section info
    /// where the message carries it.
    Update(Option<SectionInfo<K>>),
    /// A message that only a client sends.
    Unexpected,
}

/// What follows a section info message.
#[derive(Clone, Copy, Debug, PartialEq, Eq, Structural)]
pub enum JoinStep {
    /// Connect to the session's (new) elders.
    ConnectToElders,
    /// Ask the session's elders, as new contacts, for the section again.
    QuerySection,
    /// Nothing changed.
    Unchanged,
}

/// A message as the listener receives it.
pub enum Incoming<K> {
    /// A section info message.
    SectionInfo(SectionInfoMsg<K>),
    /// A message for the client, with the id of the request it answers.
    Client { kind: ClientMsgKind, correlation_id: MessageId },
    /// A message of a kind the client does not handle.
    Other,
    /// Bytes that could not be decoded.
    Malformed,
}

/// What the listener does with a message.
#[derive(Debug)]
pub enum ListenerAction<Q> {
    /// Apply the step that the section info asks for.
    Join(JoinStep),
    /// The section info was refused; the session is as it was.
    Refused(Error),
    /// Deliver a client message as routed.
    Deliver(Route<Q>),
    /// Drop the message.
    Skip,
}

/// The elders that a section info message leaves a session with, after
/// `redirects` redirects have been followed.
pub open spec fn elders_after<K>(
    prev: Set<PeerAddr>,
    msg: SectionInfoMsg<K>,
    redirects: nat,
) -> Set<PeerAddr> {
    match msg {
        SectionInfoMsg::Success(info) => info.elders@.to_set(),
        SectionInfoMsg::Update(Some(info)) => info.elders@.to_set(),
        SectionInfoMsg::Redirect(contacts) => if redirects < MAX_REDIRECTS {
            contacts@.to_set()
        } else {
            prev
        },
        _ => prev,
    }
}

/// The key set that a section info message leaves a session with.
pub open spec fn key_set_after<K>(prev: Option<K>, msg: SectionInfoMsg<K>) -> Option<K> {
    match msg {
        SectionInfoMsg::Success(info) => Some(info.pk_set),
        SectionInfoMsg::Update(Some(info)) => Some(info.pk_set),
        _ => prev,
    }
}

/// What handling a section info message returns.
pub open spec fn join_step<K>(msg: SectionInfoMsg<K>, redirects: nat) -> Result<JoinStep, Error> {
    match msg {
        SectionInfoMsg::Success(_) => Ok(JoinStep::ConnectToElders),
        SectionInfoMsg::Update(Some(_)) => Ok(JoinStep::ConnectToElders),
        SectionInfoMsg::Update(None) => Ok(JoinStep::Unchanged),
        SectionInfoMsg::Redirect(_) => if redirects < MAX_REDIRECTS {
            Ok(JoinStep::QuerySection)
        } else {
            Err(Error::TooManyRedirects)
        },
        SectionInfoMsg::Unexpected => Err(Error::UnexpectedMessageOnJoin),
    }
}

/// `list` without repeated addresses.
pub fn elder_set_of(list: &Vec<PeerAddr>) -> (r: Vec<PeerAddr>)
    ensures
        r@.no_duplicates(),
        r@.to_set() == list@.to_set(),
{
    let mut r: Vec<PeerAddr> = Vec::new();
    let mut i: usize = 0;
    while i < list.len()
        invariant
            i <= list@.len(),
            r@.no_duplicates(),
            forall|x: PeerAddr| r@.contains(x) <==> list@.take(i as int).contains(x),
        decreases list@.len() - i,
    {
        let a = list[i];
        let mut j: usize = 0;
        let mut seen = false;
        while j < r.len()
            invariant
                j <= r@.len(),
                seen <==> exists|k: int| 0 <= k < j && r@[k] == a,
            decreases r@.len() - j,
        {
            if r[j] == a {
                seen = true;
            }
            j = j + 1;
        }
        let ghost old_r = r@;
        let ghost prefix = list@.take(i as int);
        proof {
            assert(list@.take(i + 1) =~= prefix.push(a));
        }
        if !seen {
            r.push(a);
            assert(r@ == old_r.push(a));
        }
        assert forall|x: PeerAddr| r@.contains(x) <==> list@.take(i + 1).contains(x) by {
            let next = list@.take(i + 1);
            assert(next[i as int] == a);
            if r@.contains(x) {
                let k = choose|k: int| 0 <= k < r@.len() && r@[k] == x;
                if k < old_r.len() {
                    assert(old_r[k] == x);
                    assert(old_r.contains(x));
                    assert(prefix.contains(x));
                    let m = choose|m: int| 0 <= m < prefix.len() && prefix[m] == x;
                    assert(next[m] == x);
                }
            }
            if next.contains(x) {
                let m = choose|m: int| 0 <= m < next.len() && next[m] == x;
                if m < i {
                    assert(prefix[m] == x);
                    assert(prefix.contains(x));
                    assert(old_r.contains(x));
                    let k = choose|k: int| 0 <= k < old_r.len() && old_r[k] == x;
                    assert(r@[k] == x);
                } else if seen {
                    let k = choose|k: int| 0 <= k < j && old_r[k] == a;
                    assert(r@[k] == x);
                } else {
                    assert(r@[old_r.len() as int] == x);
                }
            }
        }
        i = i + 1;
    }
    assert(list@.take(i as int) =~= list@);
    assert(r@.to_set() =~= list@.to_set());
    r
}

/// A client's session with its section.
#[verifier::reject_recursive_types(K)]
#[verifier::reject_recursive_types(E)]
pub struct Session<K, E, Q, T> {
    /// The transport endpoint, once the network has been reached.
    pub endpoint: Option<E>,
    /// The elders' addresses, each once.
    pub elders: Vec<PeerAddr>,
    /// The section's public key set, once known.
    pub section_key_set: Option<K>,
    /// Queries waiting for replies.
    pub pending_queries: PendingQueries<Q>,
    /// Transfer validations collecting signature shares.
    pub pending_transfers: PendingTransfers<T>,
}

impl<K, E, Q, T> Session<K, E, Q, T> {
    pub open spec fn elder_set(&self) -> Set<PeerAddr> {
        self.elders@.to_set()
    }

    pub open spec fn key_set(&self) -> Option<K> {
        self.section_key_set
    }

    pub open spec fn endpoint_view(&self) -> Option<E> {
        self.endpoint
    }

    pub open spec fn wf(&self) -> bool {
        &&& self.elders@.no_duplicates()
        &&& self.pending_queries.wf()
        &&& self.pending_transfers.wf()
    }

    /// A session that is not bootstrapped yet: no endpoint, no elders, no
    /// key set and nothing pending.
    pub fn new() -> (r: Self)
        ensures
            r.wf(),
            r.endpoint_view() is None,
            r.elder_set() == Set::<PeerAddr>::empty(),
            r.key_set() is None,
            r.pending_queries@ == Map::<crate::ids::QueryKey, Q>::empty(),
            r.pending_transfers@ == Map::<crate::ids::MessageId, T>::empty(),
    {
        let r = Session {
            endpoint: None,
            elders: Vec::new(),
            section_key_set: None,
            pending_queries: Registry::new(),
            pending_transfers: Registry::new(),
        };
        assert(r.elders@.to_set() =~= Set::<PeerAddr>::empty());
        r
    }

    /// The transport endpoint; `NotBootstrapped` before it is set.
    pub fn endpoint(&self) -> (r: Result<&E, Error>)
        ensures
            match self.endpoint_view() {
                Some(e) => r == Ok::<&E, Error>(&e),
                None => r == Err::<&E, Error>(Error::NotBootstrapped),
            },
    {
        match &self.endpoint {
            Some(e) => Ok(e),
            None => Err(Error::NotBootstrapped),
        }
    }

    /// Sets the transport endpoint once the network has been reached.
    pub fn set_endpoint(&mut self, endpoint: E)
        requires
            old(self).wf(),
        ensures
            final(self).wf(),
            final(self).endpoint_view() == Some(endpoint),
            final(self).elder_set() == old(self).elder_set(),
            final(self).key_set() == old(self).key_set(),
            final(self).pending_queries@ == old(self).pending_queries@,
            final(self).pending_transfers@ == old(self).pending_transfers@,
    {
        self.endpoint = Some(endpoint);
    }

    /// The section's public key set; `NotBootstrapped` before it is known.
    pub fn section_key_set(&self) -> (r: Result<&K, Error>)
        ensures
            match self.key_set() {
                Some(k) => r == Ok::<&K, Error>(&k),
                None => r == Err::<&K, Error>(Error::NotBootstrapped),
            },
    {
        match &self.section_key_set {
            Some(k) => Ok(k),
            None => Err(Error::NotBootstrapped),
        }
    }

    /// The elders' addresses, each once.
    pub fn elders(&self) -> (r: &Vec<PeerAddr>)
        requires
            self.wf(),
        ensures
            r@.no_duplicates(),
            r@.to_set() == self.elder_set(),
    {
        &self.elders
    }

    /// The elders to send a query or command to; `NotBootstrapped` while
    /// the endpoint is not set.
    pub fn targets(&self) -> (r: Result<&Vec<PeerAddr>, Error>)
        requires
            self.wf(),
        ensures
            match self.endpoint_view() {
                Some(_) => r is Ok && r->Ok_0@.no_duplicates() && r->Ok_0@.to_set()
                    == self.elder_set(),
                None => r == Err::<&Vec<PeerAddr>, Error>(Error::NotBootstrapped),
            },
    {
        match &self.endpoint {
            Some(_) => Ok(&self.elders),
            None => Err(Error::NotBootstrapped),
        }
    }

    /// The number of elders the session is connected to.
    pub fn number_of_connected_elders(&self) -> (r: usize)
        requires
            self.wf(),
        ensures
            r == self.elder_set().len(),
    {
        proof {
            self.elders@.unique_seq_to_set();
        }
        self.elders.len()
    }

    /// Replaces the elders with the addresses in `elders`.
    pub fn set_elders(&mut self, elders: &Vec<PeerAddr>)
        requires
            old(self).wf(),
        ensures
            final(self).wf(),
            final(self).elder_set() == elders@.to_set(),
            final(self).endpoint_view() == old(self).endpoint_view(),
            final(self).key_set() == old(self).key_set(),
            final(self).pending_queries@ == old(self).pending_queries@,
            final(self).pending_transfers@ == old(self).pending_transfers@,
    {
        self.elders = elder_set_of(elders);
    }

    /// Applies a section info message, after `redirects` redirects have been
    /// followed. New section info replaces the elders and the key set, and
    /// the elders are to be connected to. A redirect makes its contacts the
    /// elders to ask again, up to `MAX_REDIRECTS` times. A message that only
    /// a client sends is refused.
    pub fn handle_sectioninfo_msg(&mut self, msg: SectionInfoMsg<K>, redirects: usize) -> (r:
        Result<JoinStep, Error>)
        requires
            old(self).wf(),
        ensures
            final(self).wf(),
            r == join_step(msg, redirects as nat),
            final(self).elder_set() == elders_after(old(self).elder_set(), msg, redirects as nat),
            final(self).key_set() == key_set_after(old(self).key_set(), msg),
            final(self).endpoint_view() == old(self).endpoint_view(),
            final(self).pending_queries@ == old(self).pending_queries@,
            final(self).pending_transfers@ == old(self).pending_transfers@,
    {
        match msg {
            SectionInfoMsg::Success(info) => {
                self.update_session_info(info);
                Ok(JoinStep::ConnectToElders)
            },
            SectionInfoMsg::Update(Some(info)) => {
                self.update_session_info(info);
                Ok(JoinStep::ConnectToElders)
            },
            SectionInfoMsg::Update(None) => Ok(JoinStep::Unchanged),
            SectionInfoMsg::Redirect(contacts) => {
                if redirects < MAX_REDIRECTS {
                    self.set_elders(&contacts);
                    Ok(JoinStep::QuerySection)
                } else {
                    Err(Error::TooManyRedirects)
                }
            },
            SectionInfoMsg::Unexpected => Err(Error::UnexpectedMessageOnJoin),
        }
    }

    /// Replaces the elders and the key set with those of `info`.
    pub fn update_session_info(&mut self, info: SectionInfo<K>)
        requires
            old(self).wf(),
        ensures
            final(self).wf(),
            final(self).elder_set() == info.elders@.to_set(),
            final(self).key_set() == Some(info.pk_set),
            final(self).endpoint_view() == old(self).endpoint_view(),
            final(self).pending_queries@ == old(self).pending_queries@,
            final(self).pending_transfers@ == old(self).pending_transfers@,
    {
        self.set_elders(&info.elders);
        self.section_key_set = Some(info.pk_set);
    }
}

impl ConnectionManager {
    /// Handles the first message that the contacted node sends back during
    /// bootstrap; `None` where the incoming stream closed first.
    pub fn get_elders<K, E, Q, T>(
        session: &mut Session<K, E, Q, T>,
        first: Option<SectionInfoMsg<K>>,
        redirects: usize,
    ) -> (r: Result<JoinStep, Error>)
        requires
            old(session).wf(),
        ensures
            final(session).wf(),
            match first {
                Some(msg) => {
                    &&& r == join_step(msg, redirects as nat)
                    &&& final(session).elder_set() == elders_after(
                        old(session).elder_set(),
                        msg,
                        redirects as nat,
                    )
                    &&& final(session).key_set() == key_set_after(old(session).key_set(), msg)
                },
                None => r == Err::<JoinStep, Error>(Error::NotBootstrapped) && *final(session)
                    == *old(session),
            },
            final(session).endpoint_view() == old(session).endpoint_view(),
            final(session).pending_queries@ == old(session).pending_queries@,
            final(session).pending_transfers@ == old(session).pending_transfers@,
    {
        match first {
            Some(msg) => session.handle_sectioninfo_msg(msg, redirects),
            None => Err(Error::NotBootstrapped),
        }
    }
}

impl<K, E, Q, T> Session<K, E, Q, T> {
    /// Handles one message received from `src` by the listener. Section info
    /// updates the session (a redirect counts as the first); client messages
    /// are routed to their pending requests; anything else is dropped.
    pub fn handle_incoming(&mut self, src: PeerAddr, msg: Incoming<K>) -> (r: ListenerAction<Q>)
        requires
            old(self).wf(),
        ensures
            final(self).wf(),
            final(self).endpoint_view() == old(self).endpoint_view(),
            final(self).pending_transfers@ == old(self).pending_transfers@,
            match msg {
                Incoming::SectionInfo(m) => {
                    &&& final(self).elder_set() == elders_after(old(self).elder_set(), m, 0)
                    &&& final(self).key_set() == key_set_after(old(self).key_set(), m)
                    &&& final(self).pending_queries@ == old(self).pending_queries@
                    &&& match join_step(m, 0) {
                        Ok(step) => r == ListenerAction::<Q>::Join(step),
                        Err(e) => r == ListenerAction::<Q>::Refused(e),
                    }
                },
                Incoming::Client { kind, correlation_id } => {
                    &&& final(self).elder_set() == old(self).elder_set()
                    &&& final(self).key_set() == old(self).key_set()
                    &&& r is Deliver
                    &&& kind == ClientMsgKind::QueryResponse ==> {
                        let key = QueryKey { peer: src, id: correlation_id };
                        &&& final(self).pending_queries@ == old(self).pending_queries@.remove(key)
                        &&& if old(self).pending_queries@.contains_key(key) {
                            r->Deliver_0 == Route::Query(old(self).pending_queries@[key])
                        } else {
                            r->Deliver_0 is Unmatched
                        }
                    }
                    &&& kind != ClientMsgKind::QueryResponse ==> final(self).pending_queries@
                        == old(self).pending_queries@
                    &&& (kind == ClientMsgKind::TransferValidated || kind == ClientMsgKind::CmdError)
                        ==> if forwards_to_transfer(kind, correlation_id, old(self).pending_transfers@) {
                        r->Deliver_0 is Transfer
                    } else {
                        r->Deliver_0 is Unmatched
                    }
                    &&& kind == ClientMsgKind::Other ==> r->Deliver_0 is Ignored
                },
                _ => r is Skip && *final(self) == *old(self),
            },
    {
        match msg {
            Incoming::SectionInfo(m) => match self.handle_sectioninfo_msg(m, 0) {
                Ok(step) => ListenerAction::Join(step),
                Err(e) => ListenerAction::Refused(e),
            },
            Incoming::Client { kind, correlation_id } => {
                let route = ConnectionManager::handle_client_msg(
                    kind,
                    src,
                    correlation_id,
                    &mut self.pending_queries,
                    &self.pending_transfers,
                );
                ListenerAction::Deliver(route)
            },
            _ => ListenerAction::Skip,
        }
    }
}

/// A redirect followed by section info leaves the session with the elders of
/// that section info, not the contacts of the redirect.
pub proof fn lemma_redirect_then_success<K>(
    initial: Set<PeerAddr>,
    contacts: Vec<PeerAddr>,
    info: SectionInfo<K>,
    redirects: nat,
)
    ensures
        elders_after(
            elders_after(initial, SectionInfoMsg::<K>::Redirect(contacts), redirects),
            SectionInfoMsg::Success(info),
            redirects + 1,
        ) == info.elders@.to_set(),
        redirects < MAX_REDIRECTS ==> join_step(SectionInfoMsg::<K>::Redirect(contacts), redirects)
            == Ok::<JoinStep, Error>(JoinStep::QuerySection),
        join_step(SectionInfoMsg::Success(info), redirects + 1) == Ok::<JoinStep, Error>(
            JoinStep::ConnectToElders,
        ),
{
}

} // verus!
