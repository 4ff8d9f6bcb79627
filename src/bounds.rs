use vstd::prelude::*;
use crate::key::Key;
use crate::records::{Entry, Vote, ErrorCode, EXCHANGE_RATE};
use crate::program::{fund_result, vote_result};
use crate::ledger::{LedgerView, vote_step};
use crate::laws::{Request, step, after, run};

verus! {

/// The sum of a sequence of integers.
pub open spec fn sum(s: Seq<int>) -> int
    decreases s.len(),
{
    if s.len() == 0 {
        0
    } else {
        sum(s.drop_last()) + s.last()
    }
}

proof fn lemma_sum_push(s: Seq<int>, x: int)
    ensures
        sum(s.push(x)) == sum(s) + x,
{
    assert(s.push(x).drop_last() =~= s);
}

proof fn lemma_sum_update(s: Seq<int>, k: int, x: int)
    requires
        0 <= k < s.len(),
    ensures
        sum(s.update(k, x)) == sum(s) - s[k] + x,
    decreases s.len(),
{
    if k < s.len() - 1 {
        assert(s.update(k, x).drop_last() =~= s.drop_last().update(k, x));
        lemma_sum_update(s.drop_last(), k, x);
    } else {
        assert(s.update(k, x).drop_last() =~= s.drop_last());
    }
}

proof fn lemma_sum_element(s: Seq<int>, k: int)
    requires
        0 <= k < s.len(),
        forall|i: int| 0 <= i < s.len() ==> s[i] >= 0,
    ensures
        s[k] <= sum(s),
    decreases s.len(),
{
    lemma_sum_nonneg(s.drop_last());
    if k < s.len() - 1 {
        lemma_sum_element(s.drop_last(), k);
    }
}

proof fn lemma_sum_nonneg(s: Seq<int>)
    requires
        forall|i: int| 0 <= i < s.len() ==> s[i] >= 0,
    ensures
        sum(s) >= 0,
    decreases s.len(),
{
    if s.len() > 0 {
        lemma_sum_nonneg(s.drop_last());
    }
}

proof fn lemma_sum_zero(s: Seq<int>)
    requires
        forall|i: int| 0 <= i < s.len() ==> s[i] == 0,
    ensures
        sum(s) == 0,
    decreases s.len(),
{
    if s.len() > 0 {
        lemma_sum_zero(s.drop_last());
    }
}

/// The votes that the entries of contest `c` hold, one term per entry.
pub open spec fn votes_terms(s: LedgerView, c: usize) -> Seq<int> {
    Seq::new(s.entries.len(), |i: int| if s.entries[i].contest == c { s.entries[i].votes as int } else { 0 })
}

/// The votes that the credits of contest `c` have left, one term per credit.
pub open spec fn left_terms(s: LedgerView, c: usize) -> Seq<int> {
    Seq::new(
        s.credits.len(),
        |i: int| if s.credits[i].contest == c { s.credits[i].allocated_votes as int } else { 0 },
    )
}

/// The votes that the credits of contest `c` were issued with, one term per
/// credit.
pub open spec fn issued_terms(s: LedgerView, c: usize) -> Seq<int> {
    Seq::new(s.credits.len(), |i: int| if s.credits[i].contest == c { s.issued[i] as int } else { 0 })
}

/// Records refer to contests that exist, and every contest is bounded.
pub open spec fn bounded(s: LedgerView) -> bool {
    &&& s.issued.len() == s.credits.len()
    &&& forall|i: int| 0 <= i < s.entries.len() ==> #[trigger] s.entries[i].contest < s.contests.len()
    &&& forall|i: int| 0 <= i < s.credits.len() ==> #[trigger] s.credits[i].contest < s.contests.len()
    &&& forall|c: usize| c < s.contests.len() ==> #[trigger] contest_bounded(s, c)
}

/// In contest `c`, the votes on entries plus the votes left on credits are
/// at most what was issued, which is at most the prize pool.
pub open spec fn contest_bounded(s: LedgerView, c: usize) -> bool {
    &&& sum(votes_terms(s, c)) + sum(left_terms(s, c)) <= sum(issued_terms(s, c))
    &&& sum(issued_terms(s, c)) <= s.contests[c as int].prize_pool
}

/// Each request keeps the bound.
pub(crate) proof fn lemma_step_bounded(s: LedgerView, r: Request)
    requires
        bounded(s),
    ensures
        bounded(after(s, r)),
{
    let t = after(s, r);
    if step(s, r) is Ok {
        match r {
            Request::Create { .. } => {
                assert(t.entries == s.entries && t.credits == s.credits && t.issued == s.issued);
                assert(t.contests.len() == s.contests.len() + 1);
                assert forall|c: usize| c < t.contests.len() implies #[trigger] contest_bounded(t, c) by {
                    if c < s.contests.len() {
                        assert(contest_bounded(s, c));
                    }
                    assert(votes_terms(t, c) =~= votes_terms(s, c));
                    assert(left_terms(t, c) =~= left_terms(s, c));
                    assert(issued_terms(t, c) =~= issued_terms(s, c));
                    if c == s.contests.len() {
                        lemma_sum_zero(votes_terms(s, c));
                        lemma_sum_zero(left_terms(s, c));
                        lemma_sum_zero(issued_terms(s, c));
                    } else {
                        assert(t.contests[c as int] == s.contests[c as int]);
                    }
                }
            },
            Request::Fund { contest, funder, amount } => {
                let v = fund_result(s.contests[contest as int], contest, funder, amount)->Ok_0.1;
                let q = (amount / EXCHANGE_RATE) as int;
                assert(amount / EXCHANGE_RATE <= amount) by (nonlinear_arith);
                assert(t.credits == s.credits.push(v));
                assert(t.issued == s.issued.push((amount / EXCHANGE_RATE) as nat));
                assert(t.entries == s.entries);
                assert(t.contests.len() == s.contests.len());
                assert forall|i: int| 0 <= i < t.credits.len() implies #[trigger] t.credits[i].contest
                    < t.contests.len() by {
                    if i < s.credits.len() {
                        assert(t.credits[i] == s.credits[i]);
                    }
                }
                assert forall|c: usize| c < t.contests.len() implies #[trigger] contest_bounded(t, c) by {
                    if c < s.contests.len() {
                        assert(contest_bounded(s, c));
                    }
                    assert(votes_terms(t, c) =~= votes_terms(s, c));
                    let x = if c == contest { q } else { 0 };
                    assert(left_terms(t, c) =~= left_terms(s, c).push(x));
                    assert(issued_terms(t, c) =~= issued_terms(s, c).push(x));
                    lemma_sum_push(left_terms(s, c), x);
                    lemma_sum_push(issued_terms(s, c), x);
                }
            },
            Request::Submit { contest, creator, content_link } => {
                assert forall|i: int| 0 <= i < t.entries.len() implies #[trigger] t.entries[i].contest
                    < t.contests.len() by {
                    if i < s.entries.len() {
                        assert(t.entries[i] == s.entries[i]);
                    }
                }
                assert forall|c: usize| c < t.contests.len() implies #[trigger] contest_bounded(t, c) by {
                    if c < s.contests.len() {
                        assert(contest_bounded(s, c));
                    }
                    assert(votes_terms(t, c) =~= votes_terms(s, c).push(0));
                    assert(left_terms(t, c) =~= left_terms(s, c));
                    assert(issued_terms(t, c) =~= issued_terms(s, c));
                    lemma_sum_push(votes_terms(s, c), 0);
                }
            },
            Request::CastVote { entry, credit, voter, amount } => {
                let e = s.entries[entry as int];
                let v = s.credits[credit as int];
                let (e2, v2) = vote_result(e, v, voter, amount)->Ok_0;
                assert(t.entries == s.entries.update(entry as int, e2));
                assert(t.credits == s.credits.update(credit as int, v2));
                assert forall|i: int| 0 <= i < t.entries.len() implies #[trigger] t.entries[i].contest
                    < t.contests.len() by {
                    assert(s.entries[i].contest < s.contests.len());
                }
                assert forall|i: int| 0 <= i < t.credits.len() implies #[trigger] t.credits[i].contest
                    < t.contests.len() by {
                    assert(s.credits[i].contest < s.contests.len());
                }
                assert forall|c: usize| c < t.contests.len() implies #[trigger] contest_bounded(t, c) by {
                    if c < s.contests.len() {
                        assert(contest_bounded(s, c));
                    }
                    assert(issued_terms(t, c) =~= issued_terms(s, c));
                    let ve = if e.contest == c { e2.votes as int } else { 0 };
                    let vl = if v.contest == c { v2.allocated_votes as int } else { 0 };
                    assert(votes_terms(t, c) =~= votes_terms(s, c).update(entry as int, ve));
                    assert(left_terms(t, c) =~= left_terms(s, c).update(credit as int, vl));
                    lemma_sum_update(votes_terms(s, c), entry as int, ve);
                    lemma_sum_update(left_terms(s, c), credit as int, vl);
                }
            },
            Request::Close { contest, caller } => {
                assert forall|c: usize| c < t.contests.len() implies #[trigger] contest_bounded(t, c) by {
                    if c < s.contests.len() {
                        assert(contest_bounded(s, c));
                    }
                    assert(votes_terms(t, c) =~= votes_terms(s, c));
                    assert(left_terms(t, c) =~= left_terms(s, c));
                    assert(issued_terms(t, c) =~= issued_terms(s, c));
                }
            },
        }
    }
}

proof fn lemma_run_bounded(s: LedgerView, rs: Seq<Request>)
    requires
        bounded(s),
    ensures
        bounded(run(s, rs)),
    decreases rs.len(),
{
    if rs.len() > 0 {
        lemma_run_bounded(s, rs.drop_last());
        lemma_step_bounded(run(s, rs.drop_last()), rs.last());
    }
}

/// In a bounded ledger no vote is refused for leaving the tally's range.
pub(crate) proof fn lemma_vote_in_range(
    t: LedgerView,
    entry: usize,
    credit: usize,
    voter: Key,
    amount: u64,
)
    requires
        bounded(t),
    ensures
        vote_step(t, entry, credit, voter, amount) != Err::<LedgerView, ErrorCode>(
            ErrorCode::InvalidAmount,
        ),
{
    if entry < t.entries.len() && credit < t.credits.len() {
        let e = t.entries[entry as int];
        let v = t.credits[credit as int];
        if e.contest == v.contest && v.funder == voter && v.allocated_votes >= amount {
            let c = e.contest;
            assert(c < t.contests.len());
            assert(contest_bounded(t, c));
            assert(votes_terms(t, c)[entry as int] == e.votes);
            assert(left_terms(t, c)[credit as int] == v.allocated_votes);
            lemma_sum_element(votes_terms(t, c), entry as int);
            lemma_sum_element(left_terms(t, c), credit as int);
            lemma_sum_nonneg(votes_terms(t, c));
            lemma_sum_nonneg(left_terms(t, c));
        }
    }
}

/// The empty ledger is bounded.
pub(crate) proof fn lemma_empty_bounded()
    ensures
        bounded(LedgerView::empty()),
{
}

/// In a ledger built by requests from the empty one, no vote is refused
/// for leaving the tally's range: an entry holds at most the votes issued
/// in its contest, and those are at most the contest's prize pool.
pub proof fn law_tally_stays_in_range(
    rs: Seq<Request>,
    entry: usize,
    credit: usize,
    voter: Key,
    amount: u64,
)
    ensures
        vote_step(run(LedgerView::empty(), rs), entry, credit, voter, amount)
            != Err::<LedgerView, ErrorCode>(ErrorCode::InvalidAmount),
{
    lemma_run_bounded(LedgerView::empty(), rs);
    lemma_vote_in_range(run(LedgerView::empty(), rs), entry, credit, voter, amount);
}

} // verus!
