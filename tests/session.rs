use sn_client::connection_manager::{
    AttemptEvent, AttemptStep, ClientMsgKind, ConnectionManager, Route,
};
use sn_client::ids::{MessageId, PeerAddr, QueryKey};
use sn_client::session::{
    elder_set_of, Incoming, JoinStep, ListenerAction, SectionInfo, SectionInfoMsg, Session,
};
use sn_client::Error;

type TestSession = Session<u32, &'static str, u8, u8>;

fn peer(last: u8) -> PeerAddr {
    PeerAddr { ip: u128::from(u32::from_be_bytes([10, 0, 0, last])), is_v6: false, port: 12000 }
}

fn sorted(mut v: Vec<PeerAddr>) -> Vec<PeerAddr> {
    v.sort_by_key(|p| (p.ip, p.port));
    v
}

#[test]
fn new_session_is_not_bootstrapped() {
    let mut s = TestSession::new();
    assert_eq!(s.endpoint().err(), Some(Error::NotBootstrapped));
    assert_eq!(s.section_key_set().err(), Some(Error::NotBootstrapped));
    assert_eq!(s.number_of_connected_elders(), 0);
    s.set_elders(&vec![peer(1)]);
    assert_eq!(s.targets().err(), Some(Error::NotBootstrapped));
    s.set_endpoint("endpoint");
    assert_eq!(s.endpoint(), Ok(&"endpoint"));
    assert_eq!(s.targets(), Ok(&vec![peer(1)]));
}

#[test]
fn redirect_then_success_adopts_success_elders() {
    let mut s = TestSession::new();
    let contacts = vec![peer(1), peer(2)];
    let step = s.handle_sectioninfo_msg(SectionInfoMsg::Redirect(contacts.clone()), 0);
    assert_eq!(step, Ok(JoinStep::QuerySection));
    assert_eq!(sorted(s.elders().clone()), contacts);
    let elders = vec![peer(5), peer(6), peer(7), peer(8), peer(9)];
    let info = SectionInfo { elders: elders.clone(), pk_set: 42 };
    let step = s.handle_sectioninfo_msg(SectionInfoMsg::Success(info), 1);
    assert_eq!(step, Ok(JoinStep::ConnectToElders));
    assert_eq!(sorted(s.elders().clone()), elders);
    assert_eq!(s.section_key_set(), Ok(&42));
    assert_eq!(s.number_of_connected_elders(), 5);
}

#[test]
fn redirects_are_capped() {
    let mut s = TestSession::new();
    let step = s.handle_sectioninfo_msg(SectionInfoMsg::Redirect(vec![peer(1)]), 5);
    assert_eq!(step, Err(Error::TooManyRedirects));
    assert_eq!(s.number_of_connected_elders(), 0);
    let step = s.handle_sectioninfo_msg(SectionInfoMsg::Redirect(vec![peer(1)]), 4);
    assert_eq!(step, Ok(JoinStep::QuerySection));
}

#[test]
fn update_without_info_changes_nothing() {
    let mut s = TestSession::new();
    s.set_elders(&vec![peer(1)]);
    let step = s.handle_sectioninfo_msg(SectionInfoMsg::Update(None), 0);
    assert_eq!(step, Ok(JoinStep::Unchanged));
    assert_eq!(s.elders().clone(), vec![peer(1)]);
    let info = SectionInfo { elders: vec![peer(3), peer(4)], pk_set: 7 };
    let step = s.handle_sectioninfo_msg(SectionInfoMsg::Update(Some(info)), 0);
    assert_eq!(step, Ok(JoinStep::ConnectToElders));
    assert_eq!(sorted(s.elders().clone()), vec![peer(3), peer(4)]);
    assert_eq!(s.section_key_set(), Ok(&7));
}

#[test]
fn unexpected_message_fails_join() {
    let mut s = TestSession::new();
    let step = s.handle_sectioninfo_msg(SectionInfoMsg::Unexpected, 0);
    assert_eq!(step, Err(Error::UnexpectedMessageOnJoin));
    let step = ConnectionManager::get_elders(&mut s, None, 0);
    assert_eq!(step, Err(Error::NotBootstrapped));
    let info = SectionInfo { elders: vec![peer(3)], pk_set: 1 };
    let step = ConnectionManager::get_elders(&mut s, Some(SectionInfoMsg::Success(info)), 0);
    assert_eq!(step, Ok(JoinStep::ConnectToElders));
}

#[test]
fn elder_addresses_are_kept_once() {
    let list = vec![peer(1), peer(2), peer(1), peer(3), peer(2)];
    assert_eq!(elder_set_of(&list), vec![peer(1), peer(2), peer(3)]);
    let mut s = TestSession::new();
    s.set_elders(&list);
    assert_eq!(s.number_of_connected_elders(), 3);
}

#[test]
fn listener_routes_and_skips() {
    let mut s = TestSession::new();
    let id = MessageId { high: 1, low: 2 };
    s.pending_queries.insert(QueryKey { peer: peer(1), id }, 11);
    s.pending_transfers.insert(id, 22);
    let action = s.handle_incoming(peer(2), Incoming::Client { kind: ClientMsgKind::QueryResponse, correlation_id: id });
    assert!(matches!(action, ListenerAction::Deliver(Route::Unmatched)));
    let action = s.handle_incoming(peer(1), Incoming::Client { kind: ClientMsgKind::QueryResponse, correlation_id: id });
    assert!(matches!(action, ListenerAction::Deliver(Route::Query(11))));
    let action = s.handle_incoming(peer(1), Incoming::Client { kind: ClientMsgKind::TransferValidated, correlation_id: id });
    assert!(matches!(action, ListenerAction::Deliver(Route::Transfer)));
    let action = s.handle_incoming(peer(1), Incoming::Malformed);
    assert!(matches!(action, ListenerAction::Skip));
    let action = s.handle_incoming(peer(1), Incoming::Other);
    assert!(matches!(action, ListenerAction::Skip));
    let action = s.handle_incoming(peer(1), Incoming::SectionInfo(SectionInfoMsg::Unexpected));
    assert!(matches!(action, ListenerAction::Refused(Error::UnexpectedMessageOnJoin)));
    let info = SectionInfo { elders: vec![peer(8)], pk_set: 3 };
    let action = s.handle_incoming(peer(1), Incoming::SectionInfo(SectionInfoMsg::Success(info)));
    assert!(matches!(action, ListenerAction::Join(JoinStep::ConnectToElders)));
    assert_eq!(s.elders().clone(), vec![peer(8)]);
}

#[test]
fn query_attempts_retry_within_budget() {
    assert_eq!(ConnectionManager::after_query_attempt(1, AttemptEvent::Replied), AttemptStep::Deliver);
    assert_eq!(ConnectionManager::after_query_attempt(1, AttemptEvent::SendFailed), AttemptStep::Retry);
    assert_eq!(ConnectionManager::after_query_attempt(3, AttemptEvent::TimedOut), AttemptStep::Retry);
    assert_eq!(
        ConnectionManager::after_query_attempt(4, AttemptEvent::SendFailed),
        AttemptStep::GiveUp(Error::SendingQuery)
    );
    assert_eq!(
        ConnectionManager::after_query_attempt(4, AttemptEvent::TimedOut),
        AttemptStep::GiveUp(Error::ElderQuery)
    );
    assert_eq!(
        ConnectionManager::after_query_attempt(1, AttemptEvent::ChannelClosed),
        AttemptStep::GiveUp(Error::ReceivingQuery)
    );
    assert!(ConnectionManager::may_retry(3));
    assert!(!ConnectionManager::may_retry(4));
}

#[test]
fn connect_attempts_retry_within_budget() {
    assert_eq!(ConnectionManager::after_connect_attempt(2, true), AttemptStep::Deliver);
    assert_eq!(ConnectionManager::after_connect_attempt(3, false), AttemptStep::Retry);
    assert_eq!(
        ConnectionManager::after_connect_attempt(4, false),
        AttemptStep::GiveUp(Error::ElderConnection)
    );
}
