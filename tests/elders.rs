use sn_client::connection_manager::ConnectionManager;
use sn_client::elders::{ConnectStatus, ElderConnections};
use sn_client::ids::PeerAddr;
use sn_client::Error;

fn peer(last: u8) -> PeerAddr {
    PeerAddr { ip: u128::from(u32::from_be_bytes([10, 0, 0, last])), is_v6: false, port: 12000 }
}

#[test]
fn two_of_five_connected_is_insufficient() {
    let outcomes = vec![Some(peer(1)), None, None, Some(peer(2)), None];
    assert_eq!(ConnectionManager::connect_to_elders(&outcomes), Err(Error::InsufficientElderConnections));
}

#[test]
fn three_of_five_connected_proceeds() {
    let outcomes = vec![Some(peer(1)), None, Some(peer(3)), None, Some(peer(2))];
    assert_eq!(ConnectionManager::connect_to_elders(&outcomes), Ok(vec![peer(1), peer(3), peer(2)]));
}

#[test]
fn five_connected_settles_early() {
    let outcomes = vec![
        Some(peer(1)),
        Some(peer(2)),
        Some(peer(3)),
        None,
        Some(peer(4)),
        Some(peer(5)),
        Some(peer(6)),
    ];
    assert_eq!(
        ConnectionManager::connect_to_elders(&outcomes),
        Ok(vec![peer(1), peer(2), peer(3), peer(4), peer(5)])
    );
}

#[test]
fn repeated_address_counts_once() {
    let outcomes = vec![Some(peer(1)), Some(peer(1)), Some(peer(2))];
    assert_eq!(ConnectionManager::connect_to_elders(&outcomes), Err(Error::InsufficientElderConnections));
}

#[test]
fn no_elders_is_insufficient() {
    assert_eq!(ConnectionManager::connect_to_elders(&vec![]), Err(Error::InsufficientElderConnections));
}

#[test]
fn incremental_connections() {
    let mut conns = ElderConnections::new(4);
    assert!(matches!(conns.status(), ConnectStatus::Waiting));
    conns.record(Some(peer(1)));
    conns.record(Some(peer(2)));
    conns.record(None);
    assert!(matches!(conns.status(), ConnectStatus::Waiting));
    conns.record(Some(peer(3)));
    match conns.status() {
        ConnectStatus::Connected(v) => assert_eq!(v, vec![peer(1), peer(2), peer(3)]),
        other => panic!("unexpected status {:?}", other),
    }
}
