//! The connection manager's decisions: retry budgets, routing of client
//! messages to pending requests, and removal of transfer listeners.
use crate::error::Error;
use crate::ids::{MessageId, PeerAddr, QueryKey};
use crate::registry::{PendingQueries, PendingTransfers};
use vstd::prelude::*;

verus! {

/// Extra attempts allowed after a failed send or connection attempt.
pub const NUMBER_OF_RETRIES: usize = 3;

/// The number of elders a section is expected to have.
pub const STANDARD_ELDERS_COUNT: usize = 5;

/// The fewest connected elders a session may proceed with.
pub const MIN_ELDERS_COUNT: usize = 3;

/// The most redirects a bootstrap follows.
pub const MAX_REDIRECTS: usize = 5;

/// Bootstraps to the network and maintains connections to its elders.
pub struct ConnectionManager {}

/// The kind of a message meant for the client.
#[derive(Clone, Copy, Debug, PartialEq, Eq, Structural)]
pub enum ClientMsgKind {
    /// The reply to a query.
    QueryResponse,
    /// An elder's signature share over a transfer.
    TransferValidated,
    /// An elder's refusal of a command.
    CmdError,
    /// Any other client message.
    Other,
}

/// Where a client message goes.
#[derive(Debug)]
pub enum Route<S> {
    /// To the pending query's channel, which was taken out of the registry.
    Query(S),
    /// To the pending transfer validation's channel, which stays registered.
    Transfer,
    /// Nowhere: no request is pending under its correlation id.
    Unmatched,
    /// Nowhere: the kind of message is not routed.
    Ignored,
}

/// What ended one attempt to query an elder.
#[derive(Clone, Copy, Debug, PartialEq, Eq, Structural)]
pub enum AttemptEvent {
    /// The query could not be sent.
    SendFailed,
    /// The reply arrived.
    Replied,
    /// No reply arrived within the wait allowed for one attempt.
    TimedOut,
    /// The reply channel closed without a reply.
    ChannelClosed,
}

/// What follows one attempt.
#[derive(Clone, Copy, Debug, PartialEq, Eq, Structural)]
pub enum AttemptStep {
    /// Hand the reply on.
    Deliver,
    /// Try again.
    Retry,
    /// Stop trying, with this error.
    GiveUp(Error),
}

/// What removing the transfer listener under `id` from `pending` returns.
pub open spec fn removal_result<S>(pending: Map<MessageId, S>, id: MessageId) -> Result<(), Error> {
    if pending.contains_key(id) {
        Ok(())
    } else {
        Err(Error::NoTransferValidationListener)
    }
}

/// Whether a client message of `kind` with `correlation_id` is forwarded to a
/// pending transfer validation.
pub open spec fn forwards_to_transfer<S>(
    kind: ClientMsgKind,
    correlation_id: MessageId,
    transfers: Map<MessageId, S>,
) -> bool {
    (kind == ClientMsgKind::TransferValidated || kind == ClientMsgKind::CmdError)
        && transfers.contains_key(correlation_id)
}

/// The number of messages in `ids` that reach a pending transfer validation.
pub open spec fn transfer_deliveries<S>(ids: Seq<MessageId>, transfers: Map<MessageId, S>) -> nat
    decreases ids.len(),
{
    if ids.len() == 0 {
        0
    } else {
        transfer_deliveries(ids.drop_last(), transfers) + if forwards_to_transfer(
            ClientMsgKind::TransferValidated,
            ids.last(),
            transfers,
        ) {
            1nat
        } else {
            0nat
        }
    }
}

impl ConnectionManager {
    /// Whether another attempt may follow `attempts_made` failed attempts:
    /// one attempt and at most `NUMBER_OF_RETRIES` more are made.
    pub fn may_retry(attempts_made: usize) -> (r: bool)
        ensures
            r == (attempts_made <= NUMBER_OF_RETRIES),
    {
        attempts_made <= NUMBER_OF_RETRIES
    }

    /// What follows attempt number `attempts_made` (counting from one) to
    /// query an elder, ended by `event`. Failed sends and timeouts are retried
    /// while the retry budget lasts; a closed reply channel is final.
    pub fn after_query_attempt(attempts_made: usize, event: AttemptEvent) -> (r: AttemptStep)
        ensures
            r == match event {
                AttemptEvent::Replied => AttemptStep::Deliver,
                AttemptEvent::ChannelClosed => AttemptStep::GiveUp(Error::ReceivingQuery),
                AttemptEvent::SendFailed => if attempts_made <= NUMBER_OF_RETRIES {
                    AttemptStep::Retry
                } else {
                    AttemptStep::GiveUp(Error::SendingQuery)
                },
                AttemptEvent::TimedOut => if attempts_made <= NUMBER_OF_RETRIES {
                    AttemptStep::Retry
                } else {
                    AttemptStep::GiveUp(Error::ElderQuery)
                },
            },
    {
        match event {
            AttemptEvent::Replied => AttemptStep::Deliver,
            AttemptEvent::ChannelClosed => AttemptStep::GiveUp(Error::ReceivingQuery),
            AttemptEvent::SendFailed => if Self::may_retry(attempts_made) {
                AttemptStep::Retry
            } else {
                AttemptStep::GiveUp(Error::SendingQuery)
            },
            AttemptEvent::TimedOut => if Self::may_retry(attempts_made) {
                AttemptStep::Retry
            } else {
                AttemptStep::GiveUp(Error::ElderQuery)
            },
        }
    }

    /// What follows attempt number `attempts_made` (counting from one) to
    /// connect to an elder and send it the join request.
    pub fn after_connect_attempt(attempts_made: usize, succeeded: bool) -> (r: AttemptStep)
        ensures
            r == if succeeded {
                AttemptStep::Deliver
            } else if attempts_made <= NUMBER_OF_RETRIES {
                AttemptStep::Retry
            } else {
                AttemptStep::GiveUp(Error::ElderConnection)
            },
    {
        if succeeded {
            AttemptStep::Deliver
        } else if Self::may_retry(attempts_made) {
            AttemptStep::Retry
        } else {
            AttemptStep::GiveUp(Error::ElderConnection)
        }
    }

    /// The number of failed sends among `results`.
    pub fn count_failed_sends(results: &Vec<Result<(), Error>>) -> (r: usize)
        ensures
            r == results@.filter(|x: Result<(), Error>| x is Err).len(),
    {
        let mut failures: usize = 0;
        let mut i: usize = 0;
        while i < results.len()
            invariant
                i <= results@.len(),
                failures == results@.take(i as int).filter(|x: Result<(), Error>| x is Err).len(),
                failures <= i,
            decreases results@.len() - i,
        {
            proof {
                assert(results@.take(i + 1).drop_last() =~= results@.take(i as int));
                reveal(Seq::filter);
            }
            if results[i].is_err() {
                failures = failures + 1;
            }
            i = i + 1;
        }
        assert(results@.take(i as int) =~= results@);
        failures
    }

    /// Removes the transfer listener under `msg_id`; a listener that is not
    /// there gives `NoTransferValidationListener`.
    pub fn remove_pending_transfer_sender<S>(
        msg_id: &MessageId,
        pending_transfers: &mut PendingTransfers<S>,
    ) -> (r: Result<(), Error>)
        requires
            old(pending_transfers).wf(),
        ensures
            final(pending_transfers).wf(),
            final(pending_transfers)@ == old(pending_transfers)@.remove(*msg_id),
            r == removal_result(old(pending_transfers)@, *msg_id),
    {
        match pending_transfers.remove(msg_id) {
            Some(_) => Ok(()),
            None => Err(Error::NoTransferValidationListener),
        }
    }

    /// Routes a client message from `src` with `correlation_id`. A query
    /// response takes the pending query of that elder and id out of the
    /// registry; a transfer validation or command error goes to the pending
    /// transfer validation of that id, which stays registered.
    pub fn handle_client_msg<Q, T>(
        kind: ClientMsgKind,
        src: PeerAddr,
        correlation_id: MessageId,
        pending_queries: &mut PendingQueries<Q>,
        pending_transfers: &PendingTransfers<T>,
    ) -> (r: Route<Q>)
        requires
            old(pending_queries).wf(),
            pending_transfers.wf(),
        ensures
            final(pending_queries).wf(),
            kind == ClientMsgKind::QueryResponse ==> {
                let key = QueryKey { peer: src, id: correlation_id };
                &&& final(pending_queries)@ == old(pending_queries)@.remove(key)
                &&& if old(pending_queries)@.contains_key(key) {
                    r == Route::Query(old(pending_queries)@[key])
                } else {
                    r is Unmatched
                }
            },
            kind != ClientMsgKind::QueryResponse ==> final(pending_queries)@ == old(
                pending_queries,
            )@,
            kind == ClientMsgKind::TransferValidated || kind == ClientMsgKind::CmdError ==> if forwards_to_transfer(kind, correlation_id, pending_transfers@) {
                r is Transfer
            } else {
                r is Unmatched
            },
            kind == ClientMsgKind::Other ==> r is Ignored,
    {
        match kind {
            ClientMsgKind::QueryResponse => {
                let key = QueryKey { peer: src, id: correlation_id };
                match pending_queries.remove(&key) {
                    Some(sender) => Route::Query(sender),
                    None => Route::Unmatched,
                }
            },
            ClientMsgKind::TransferValidated | ClientMsgKind::CmdError => {
                if pending_transfers.contains(&correlation_id) {
                    Route::Transfer
                } else {
                    Route::Unmatched
                }
            },
            ClientMsgKind::Other => Route::Ignored,
        }
    }
}

/// A reply from elder `y` for message `id` leaves the pending query of
/// another elder `x` for the same id as it was.
pub proof fn lemma_reply_satisfies_only_its_entry<S>(
    pending: Map<QueryKey, S>,
    x: PeerAddr,
    y: PeerAddr,
    id: MessageId,
)
    requires
        x != y,
    ensures
        pending.remove(QueryKey { peer: y, id }).contains_key(QueryKey { peer: x, id })
            == pending.contains_key(QueryKey { peer: x, id }),
        pending.contains_key(QueryKey { peer: x, id }) ==> pending.remove(
            QueryKey { peer: y, id },
        )[QueryKey { peer: x, id }] == pending[QueryKey { peer: x, id }],
        !pending.remove(QueryKey { peer: x, id }).contains_key(QueryKey { peer: x, id }),
{
}

/// While the transfer listener of `id` is registered, every one of a run of
/// signature shares for `id` is forwarded to it: as many deliveries as shares.
pub proof fn lemma_every_share_delivered<S>(
    ids: Seq<MessageId>,
    id: MessageId,
    transfers: Map<MessageId, S>,
)
    requires
        transfers.contains_key(id),
        forall|i: int| 0 <= i < ids.len() ==> ids[i] == id,
    ensures
        transfer_deliveries(ids, transfers) == ids.len(),
    decreases ids.len(),
{
    if ids.len() > 0 {
        lemma_every_share_delivered(ids.drop_last(), id, transfers);
    }
}

/// Removing a transfer listener twice succeeds the first time and gives
/// `NoTransferValidationListener` the second time.
pub proof fn lemma_double_removal<S>(pending: Map<MessageId, S>, id: MessageId)
    requires
        pending.contains_key(id),
    ensures
        removal_result(pending, id) == Ok::<(), Error>(()),
        removal_result(pending.remove(id), id) == Err::<(), Error>(
            Error::NoTransferValidationListener,
        ),
{
}

} // verus!
