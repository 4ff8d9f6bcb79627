use contest_app::{ErrorCode, Key, Ledger, EXCHANGE_RATE};

fn key(b: u8) -> Key {
    Key::new([b; 32])
}

fn open_contest(l: &mut Ledger, owner: Key) -> usize {
    l.create(owner, "Best photo".to_string(), "Photos of the sea".to_string(), 1_700_000_000)
        .unwrap()
}

#[test]
fn fund_submit_vote_scenario() {
    let mut l = Ledger::new();
    let owner = key(1);
    let voter = key(2);
    let c = open_contest(&mut l, owner);
    assert_eq!(l.contest(c).unwrap().deadline, 1_700_000_000);
    let credit = l.fund(c, voter, 5_000_000).unwrap();
    let v = l.credit(credit).unwrap();
    assert_eq!(v.allocated_votes, 5);
    assert_eq!(v.used_votes, 0);
    assert_eq!(l.contest(c).unwrap().prize_pool, 5_000_000);
    let e = l.submit(c, key(3), "https://example.org/a".to_string()).unwrap();
    assert_eq!(l.cast_vote(e, credit, voter, 3), Ok(()));
    assert_eq!(l.entry(e).unwrap().votes, 3);
    assert_eq!(l.credit(credit).unwrap().allocated_votes, 2);
    assert_eq!(l.credit(credit).unwrap().used_votes, 3);
    assert_eq!(l.cast_vote(e, credit, voter, 3), Err(ErrorCode::InsufficientVotes));
    assert_eq!(l.entry(e).unwrap().votes, 3);
    assert_eq!(l.credit(credit).unwrap().allocated_votes, 2);
    assert_eq!(l.credit(credit).unwrap().used_votes, 3);
}

#[test]
fn submit_after_close_fails_but_fund_succeeds() {
    let mut l = Ledger::new();
    let owner = key(1);
    let c = open_contest(&mut l, owner);
    assert_eq!(l.close(c, owner), Ok(()));
    assert_eq!(l.submit(c, key(3), "link".to_string()), Err(ErrorCode::ContestClosed));
    let credit = l.fund(c, key(2), 3_000_000).unwrap();
    assert_eq!(l.credit(credit).unwrap().allocated_votes, 3);
    assert_eq!(l.contest(c).unwrap().prize_pool, 3_000_000);
    assert!(l.contest(c).unwrap().is_closed);
}

#[test]
fn voting_on_closed_contest_still_goes_through() {
    let mut l = Ledger::new();
    let owner = key(1);
    let voter = key(2);
    let c = open_contest(&mut l, owner);
    let credit = l.fund(c, voter, 2_000_000).unwrap();
    let e = l.submit(c, key(3), "link".to_string()).unwrap();
    assert_eq!(l.close(c, owner), Ok(()));
    assert_eq!(l.cast_vote(e, credit, voter, 2), Ok(()));
    assert_eq!(l.entry(e).unwrap().votes, 2);
}

#[test]
fn close_goes_through_once() {
    let mut l = Ledger::new();
    let owner = key(1);
    let c = open_contest(&mut l, owner);
    assert!(!l.contest(c).unwrap().is_closed);
    assert_eq!(l.close(c, owner), Ok(()));
    assert!(l.contest(c).unwrap().is_closed);
    assert_eq!(l.close(c, owner), Err(ErrorCode::AlreadyClosed));
    assert_eq!(l.close(c, owner), Err(ErrorCode::AlreadyClosed));
    assert!(l.contest(c).unwrap().is_closed);
}

#[test]
fn close_by_non_owner_is_unauthorized_in_any_state() {
    let mut l = Ledger::new();
    let owner = key(1);
    let c = open_contest(&mut l, owner);
    assert_eq!(l.close(c, key(9)), Err(ErrorCode::Unauthorized));
    assert!(!l.contest(c).unwrap().is_closed);
    assert_eq!(l.close(c, owner), Ok(()));
    assert_eq!(l.close(c, key(9)), Err(ErrorCode::Unauthorized));
}

#[test]
fn vote_across_contests_is_a_mismatch() {
    let mut l = Ledger::new();
    let owner = key(1);
    let voter = key(2);
    let a = open_contest(&mut l, owner);
    let b = open_contest(&mut l, owner);
    let credit = l.fund(a, voter, 4_000_000).unwrap();
    let e = l.submit(b, key(3), "link".to_string()).unwrap();
    assert_eq!(l.cast_vote(e, credit, voter, 1), Err(ErrorCode::ContestMismatch));
    assert_eq!(l.cast_vote(e, credit, key(7), 100), Err(ErrorCode::ContestMismatch));
    assert_eq!(l.entry(e).unwrap().votes, 0);
    assert_eq!(l.credit(credit).unwrap().allocated_votes, 4);
}

#[test]
fn vote_by_someone_else_is_unauthorized() {
    let mut l = Ledger::new();
    let c = open_contest(&mut l, key(1));
    let credit = l.fund(c, key(2), 4_000_000).unwrap();
    let e = l.submit(c, key(3), "link".to_string()).unwrap();
    assert_eq!(l.cast_vote(e, credit, key(4), 1), Err(ErrorCode::UnauthorizedVoter));
    assert_eq!(l.credit(credit).unwrap().used_votes, 0);
    assert_eq!(l.entry(e).unwrap().votes, 0);
}

#[test]
fn overdraft_is_refused_and_changes_nothing() {
    let mut l = Ledger::new();
    let voter = key(2);
    let c = open_contest(&mut l, key(1));
    let credit = l.fund(c, voter, 1_000_000).unwrap();
    let e = l.submit(c, key(3), "link".to_string()).unwrap();
    assert_eq!(l.cast_vote(e, credit, voter, 2), Err(ErrorCode::InsufficientVotes));
    assert_eq!(l.entry(e).unwrap().votes, 0);
    assert_eq!(l.credit(credit).unwrap().allocated_votes, 1);
    assert_eq!(l.credit(credit).unwrap().used_votes, 0);
    assert_eq!(l.cast_vote(e, credit, voter, 1), Ok(()));
    assert_eq!(l.cast_vote(e, credit, voter, 1), Err(ErrorCode::InsufficientVotes));
}

#[test]
fn zero_vote_goes_through_and_changes_nothing() {
    let mut l = Ledger::new();
    let voter = key(2);
    let c = open_contest(&mut l, key(1));
    let credit = l.fund(c, voter, 999_999).unwrap();
    assert_eq!(l.credit(credit).unwrap().allocated_votes, 0);
    let e = l.submit(c, key(3), "link".to_string()).unwrap();
    assert_eq!(l.cast_vote(e, credit, voter, 0), Ok(()));
    assert_eq!(l.entry(e).unwrap().votes, 0);
    assert_eq!(l.credit(credit).unwrap().used_votes, 0);
}

#[test]
fn remainder_of_funding_is_forfeited() {
    let mut l = Ledger::new();
    let c = open_contest(&mut l, key(1));
    let a = l.fund(c, key(2), 2_500_000).unwrap();
    let b = l.fund(c, key(2), 999_999).unwrap();
    assert_eq!(l.credit(a).unwrap().allocated_votes, 2);
    assert_eq!(l.credit(b).unwrap().allocated_votes, 0);
    assert_eq!(l.contest(c).unwrap().prize_pool, 3_499_999);
    assert_eq!(EXCHANGE_RATE, 1_000_000);
}

#[test]
fn fund_of_zero_is_invalid() {
    let mut l = Ledger::new();
    let c = open_contest(&mut l, key(1));
    assert_eq!(l.fund(c, key(2), 0), Err(ErrorCode::InvalidAmount));
    assert!(l.credit(0).is_none());
    assert_eq!(l.contest(c).unwrap().prize_pool, 0);
}

#[test]
fn fund_past_the_pool_range_is_invalid() {
    let mut l = Ledger::new();
    let c = open_contest(&mut l, key(1));
    let first = l.fund(c, key(2), u64::MAX - 10).unwrap();
    assert_eq!(l.credit(first).unwrap().allocated_votes, (u64::MAX - 10) / 1_000_000);
    assert_eq!(l.fund(c, key(2), 11), Err(ErrorCode::InvalidAmount));
    assert!(l.credit(1).is_none());
    assert_eq!(l.fund(c, key(2), 10), Ok(1));
    assert_eq!(l.contest(c).unwrap().prize_pool, u64::MAX);
}

#[test]
fn unknown_ids_are_not_found() {
    let mut l = Ledger::new();
    let owner = key(1);
    let voter = key(2);
    assert_eq!(l.fund(0, voter, 1_000_000), Err(ErrorCode::NotFound));
    assert_eq!(l.submit(0, voter, "link".to_string()), Err(ErrorCode::NotFound));
    assert_eq!(l.close(0, owner), Err(ErrorCode::NotFound));
    let c = open_contest(&mut l, owner);
    let credit = l.fund(c, voter, 1_000_000).unwrap();
    let e = l.submit(c, key(3), "link".to_string()).unwrap();
    assert_eq!(l.cast_vote(e + 1, credit, voter, 1), Err(ErrorCode::NotFound));
    assert_eq!(l.cast_vote(e, credit + 1, voter, 1), Err(ErrorCode::NotFound));
    assert_eq!(l.contest(c + 1).is_none(), true);
    assert_eq!(l.entry(e + 1).is_none(), true);
}

#[test]
fn ids_count_up_from_zero() {
    let mut l = Ledger::new();
    let owner = key(1);
    assert_eq!(open_contest(&mut l, owner), 0);
    assert_eq!(open_contest(&mut l, owner), 1);
    assert_eq!(l.fund(1, key(2), 1_000_000), Ok(0));
    assert_eq!(l.fund(0, key(2), 1_000_000), Ok(1));
    assert_eq!(l.submit(1, key(3), "a".to_string()), Ok(0));
    assert_eq!(l.submit(1, key(3), "b".to_string()), Ok(1));
    assert_eq!(l.entry(1).unwrap().content_link, "b");
    assert_eq!(l.entry(1).unwrap().contest, 1);
}

#[test]
fn contest_texts_must_fit_storage() {
    let mut l = Ledger::new();
    let owner = key(1);
    let fits = l.create(owner, "t".repeat(100), "d".repeat(99), 0);
    assert_eq!(fits, Ok(0));
    let too_long = l.create(owner, "t".repeat(100), "d".repeat(100), 0);
    assert_eq!(too_long, Err(ErrorCode::InvalidInput));
    let wide = l.create(owner, "é".repeat(50), "d".repeat(100), 0);
    assert_eq!(wide, Err(ErrorCode::InvalidInput));
    assert!(l.contest(1).is_none());
    let c = l.contest(0).unwrap();
    assert_eq!(c.owner, owner);
    assert_eq!(c.prize_pool, 0);
    assert!(!c.is_closed);
}

#[test]
fn entry_link_must_fit_storage() {
    let mut l = Ledger::new();
    let c = open_contest(&mut l, key(1));
    assert_eq!(l.submit(c, key(3), "x".repeat(180)), Ok(0));
    assert_eq!(l.submit(c, key(3), "x".repeat(181)), Err(ErrorCode::InvalidInput));
    assert!(l.entry(1).is_none());
}

#[test]
fn credit_is_conserved_across_interleaved_votes() {
    let mut l = Ledger::new();
    let owner = key(1);
    let (alice, bob) = (key(2), key(3));
    let c = open_contest(&mut l, owner);
    let ca = l.fund(c, alice, 7_000_000).unwrap();
    let cb = l.fund(c, bob, 4_500_000).unwrap();
    let e1 = l.submit(c, key(5), "one".to_string()).unwrap();
    let e2 = l.submit(c, key(6), "two".to_string()).unwrap();
    assert_eq!(l.cast_vote(e1, ca, alice, 2), Ok(()));
    assert_eq!(l.cast_vote(e2, cb, bob, 1), Ok(()));
    assert_eq!(l.cast_vote(e1, cb, bob, 5), Err(ErrorCode::InsufficientVotes));
    assert_eq!(l.cast_vote(e2, ca, alice, 4), Ok(()));
    assert_eq!(l.cast_vote(e1, cb, alice, 1), Err(ErrorCode::UnauthorizedVoter));
    assert_eq!(l.cast_vote(e1, cb, bob, 3), Ok(()));
    let a = l.credit(ca).unwrap();
    let b = l.credit(cb).unwrap();
    assert_eq!(a.allocated_votes + a.used_votes, 7);
    assert_eq!(b.allocated_votes + b.used_votes, 4);
    assert_eq!((a.allocated_votes, a.used_votes), (1, 6));
    assert_eq!((b.allocated_votes, b.used_votes), (0, 4));
    assert_eq!(l.entry(e1).unwrap().votes, 2 + 3);
    assert_eq!(l.entry(e2).unwrap().votes, 1 + 4);
}

#[test]
fn largest_funding_can_be_voted_in_full() {
    let mut l = Ledger::new();
    let voter = key(2);
    let c = open_contest(&mut l, key(1));
    let credit = l.fund(c, voter, u64::MAX).unwrap();
    let n = u64::MAX / EXCHANGE_RATE;
    assert_eq!(l.credit(credit).unwrap().allocated_votes, n);
    let e = l.submit(c, key(3), "link".to_string()).unwrap();
    assert_eq!(l.cast_vote(e, credit, voter, n - 1), Ok(()));
    assert_eq!(l.cast_vote(e, credit, voter, 1), Ok(()));
    assert_eq!(l.entry(e).unwrap().votes, n);
    assert_eq!(l.credit(credit).unwrap().allocated_votes, 0);
    assert_eq!(l.credit(credit).unwrap().used_votes, n);
    assert_eq!(l.fund(c, voter, 1), Err(ErrorCode::InvalidAmount));
}
