use sn_client::quorum::{resolve_query, vote_threshold, QueryTally, Resolution};
use sn_client::Error;

fn reply(s: &str) -> Vec<u8> {
    s.as_bytes().to_vec()
}

#[test]
fn threshold_is_ceiling_of_half() {
    let expected: [usize; 8] = [0, 1, 1, 2, 2, 3, 3, 4];
    for n in 0..8 {
        assert_eq!(vote_threshold(n), expected[n]);
    }
    assert_eq!(vote_threshold(5), 3);
}

#[test]
fn three_of_five_resolves_at_fourth_reply() {
    let mut tally = QueryTally::new(5);
    for _ in 0..3 {
        tally.record_reply(reply("A"));
        assert!(matches!(tally.resolution(), Resolution::Pending));
    }
    tally.record_reply(reply("B"));
    match tally.resolution() {
        Resolution::Fallback(r) => assert_eq!(r, reply("A")),
        other => panic!("unexpected resolution {:?}", other),
    }
    assert_eq!(tally.observed(), 4);
}

#[test]
fn four_of_five_wins_by_majority() {
    let mut tally = QueryTally::new(5);
    tally.record_reply(reply("A"));
    tally.record_reply(reply("A"));
    tally.record_reply(reply("A"));
    assert!(matches!(tally.resolution(), Resolution::Pending));
    tally.record_failure();
    match tally.resolution() {
        Resolution::Fallback(r) => assert_eq!(r, reply("A")),
        other => panic!("unexpected resolution {:?}", other),
    }
    let mut tally = QueryTally::new(7);
    for _ in 0..4 {
        assert!(matches!(tally.resolution(), Resolution::Pending));
        tally.record_reply(reply("A"));
    }
    assert!(matches!(tally.resolution(), Resolution::Pending));
    tally.record_reply(reply("A"));
    match tally.resolution() {
        Resolution::Majority(r) => assert_eq!(r, reply("A")),
        other => panic!("unexpected resolution {:?}", other),
    }
}

#[test]
fn majority_needs_more_than_threshold() {
    // Nine elders: the threshold is five, so it takes six equal replies.
    let mut tally = QueryTally::new(9);
    for _ in 0..6 {
        tally.record_reply(reply("A"));
    }
    match tally.resolution() {
        Resolution::Majority(r) => assert_eq!(r, reply("A")),
        other => panic!("unexpected resolution {:?}", other),
    }
    let mut tally = QueryTally::new(9);
    for _ in 0..5 {
        tally.record_reply(reply("A"));
    }
    assert!(matches!(tally.resolution(), Resolution::Pending));
}

#[test]
fn tie_keeps_incumbent_leader() {
    let mut tally = QueryTally::new(5);
    tally.record_reply(reply("A"));
    tally.record_reply(reply("A"));
    tally.record_reply(reply("B"));
    assert!(matches!(tally.resolution(), Resolution::Pending));
    tally.record_reply(reply("B"));
    match tally.resolution() {
        Resolution::Fallback(r) => assert_eq!(r, reply("A")),
        other => panic!("unexpected resolution {:?}", other),
    }
    let outcomes = vec![Some(reply("A")), Some(reply("A")), Some(reply("B")), Some(reply("B")), None];
    assert_eq!(resolve_query(5, &outcomes), Ok(reply("A")));
}

#[test]
fn first_to_reach_count_keeps_lead() {
    let outcomes = vec![Some(reply("B")), Some(reply("A")), Some(reply("B")), Some(reply("A"))];
    assert_eq!(resolve_query(5, &outcomes), Ok(reply("B")));
    let outcomes = vec![Some(reply("B")), Some(reply("A")), Some(reply("A")), Some(reply("B"))];
    assert_eq!(resolve_query(5, &outcomes), Ok(reply("A")));
}

#[test]
fn failures_count_towards_fallback() {
    let outcomes = vec![None, Some(reply("B")), None, Some(reply("C"))];
    assert_eq!(resolve_query(5, &outcomes), Ok(reply("B")));
}

#[test]
fn no_reply_gives_no_response() {
    let outcomes = vec![None, None, None];
    assert_eq!(resolve_query(3, &outcomes), Err(Error::NoResponse));
    let outcomes: Vec<Option<Vec<u8>>> = vec![];
    assert_eq!(resolve_query(3, &outcomes), Err(Error::NoResponse));
}

#[test]
fn single_elder_never_exceeds_threshold() {
    let outcomes = vec![Some(reply("A"))];
    assert_eq!(resolve_query(1, &outcomes), Err(Error::NoResponse));
}

#[test]
fn replies_after_resolution_are_not_read() {
    let outcomes = vec![
        Some(reply("A")),
        Some(reply("A")),
        Some(reply("A")),
        Some(reply("B")),
        Some(reply("B")),
    ];
    assert_eq!(resolve_query(5, &outcomes), Ok(reply("A")));
}

#[test]
fn votes_are_keyed_by_sha3_digest() {
    let mut tally = QueryTally::new(3);
    assert_eq!(tally.leader_key(), None);
    tally.record_reply(reply("hello world"));
    let expected: Vec<u8> = vec![
        0x64, 0x4b, 0xcc, 0x7e, 0x56, 0x43, 0x73, 0x04, 0x09, 0x99, 0xaa, 0xc8, 0x9e, 0x76, 0x22,
        0xf3, 0xca, 0x71, 0xfb, 0xa1, 0xd9, 0x72, 0xfd, 0x94, 0xa3, 0x1c, 0x3b, 0xfb, 0xf2, 0x4e,
        0x39, 0x38,
    ];
    assert_eq!(tally.leader_key(), Some(expected));
}

#[test]
fn keyed_replies_vote_by_key() {
    let mut tally = QueryTally::new(2);
    tally.record_reply_keyed(vec![1], reply("first"));
    assert_eq!(tally.select_best_of_the_rest_response(), None);
    tally.record_reply_keyed(vec![1], reply("second"));
    match tally.resolution() {
        Resolution::Majority(r) => assert_eq!(r, reply("first")),
        other => panic!("unexpected resolution {:?}", other),
    }
    assert_eq!(tally.select_best_of_the_rest_response(), Some(reply("first")));
}
