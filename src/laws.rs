use vstd::prelude::*;
use crate::key::Key;
use crate::records::{ErrorCode, EXCHANGE_RATE, credits_for};
use crate::program::fund_result;
use crate::bounds::lemma_step_bounded;
use crate::ledger::{LedgerView, create_step, fund_step, submit_step, vote_step, close_step};

verus! {

/// One request to a ledger.
pub enum Request {
    Create { owner: Key, title: String, description: String, deadline: i64 },
    Fund { contest: usize, funder: Key, amount: u64 },
    Submit { contest: usize, creator: Key, content_link: String },
    CastVote { entry: usize, credit: usize, voter: Key, amount: u64 },
    Close { contest: usize, caller: Key },
}

/// The outcome of one request on a ledger.
pub open spec fn step(s: LedgerView, r: Request) -> Result<LedgerView, ErrorCode> {
    match r {
        Request::Create { owner, title, description, deadline } => create_step(
            s,
            owner,
            title,
            description,
            deadline,
        ),
        Request::Fund { contest, funder, amount } => fund_step(s, contest, funder, amount),
        Request::Submit { contest, creator, content_link } => submit_step(
            s,
            contest,
            creator,
            content_link,
        ),
        Request::CastVote { entry, credit, voter, amount } => vote_step(
            s,
            entry,
            credit,
            voter,
            amount,
        ),
        Request::Close { contest, caller } => close_step(s, contest, caller),
    }
}

/// The ledger after one request: a refused request leaves it as it was.
pub open spec fn after(s: LedgerView, r: Request) -> LedgerView {
    match step(s, r) {
        Ok(t) => t,
        Err(_) => s,
    }
}

/// The ledger after a sequence of requests, applied in order.
pub open spec fn run(s: LedgerView, rs: Seq<Request>) -> LedgerView
    decreases rs.len(),
{
    if rs.len() == 0 {
        s
    } else {
        after(run(s, rs.drop_last()), rs.last())
    }
}

/// The votes entry `e` holds, taking an entry that does not exist as none.
pub open spec fn tally(s: LedgerView, e: int) -> int {
    if 0 <= e < s.entries.len() {
        s.entries[e].votes as int
    } else {
        0
    }
}

/// What request `r` adds to entry `e` when applied to `s`: its amount if it
/// is a vote for `e` that goes through, else nothing.
pub open spec fn committed_amount(s: LedgerView, r: Request, e: int) -> int {
    match r {
        Request::CastVote { entry, amount, .. } => if entry == e && step(s, r) is Ok {
            amount as int
        } else {
            0
        },
        _ => 0,
    }
}

/// The sum of the amounts of the votes for entry `e` that went through in a
/// sequence of requests.
pub open spec fn committed_votes(s: LedgerView, rs: Seq<Request>, e: int) -> int
    decreases rs.len(),
{
    if rs.len() == 0 {
        0
    } else {
        committed_votes(s, rs.drop_last(), e) + committed_amount(
            run(s, rs.drop_last()),
            rs.last(),
            e,
        )
    }
}

/// What one request keeps: records are never removed, issuances never
/// change, owners never change, a closed contest stays closed, a well-formed
/// ledger stays well-formed, and only a vote that goes through changes a
/// tally, by its amount.
proof fn lemma_step(s: LedgerView, r: Request)
    ensures
        after(s, r).contests.len() >= s.contests.len(),
        after(s, r).entries.len() >= s.entries.len(),
        after(s, r).issued.len() >= s.issued.len(),
        forall|i: int| 0 <= i < s.issued.len() ==> after(s, r).issued[i] == s.issued[i],
        forall|c: int|
            0 <= c < s.contests.len() ==> after(s, r).contests[c].owner == s.contests[c].owner,
        forall|c: int|
            0 <= c < s.contests.len() && s.contests[c].is_closed ==> after(
                s,
                r,
            ).contests[c].is_closed,
        s.wf() ==> after(s, r).wf(),
        forall|e: int| tally(after(s, r), e) == tally(s, e) + committed_amount(s, r, e),
{
    let t = after(s, r);
    if s.wf() {
        lemma_step_bounded(s, r);
    }
    match r {
        Request::CastVote { entry, credit, voter, amount } => {
            if step(s, r) is Ok {
                if s.wf() {
                    assert forall|i: int| 0 <= i < t.credits.len() implies
                        #[trigger] t.issued[i] == t.credits[i].allocated_votes
                            + t.credits[i].used_votes && t.issued[i] <= u64::MAX by {
                        assert(s.issued[i] == s.credits[i].allocated_votes
                            + s.credits[i].used_votes);
                    }
                }
            }
        },
        Request::Fund { contest, funder, amount } => {
            if step(s, r) is Ok && s.wf() {
                let v = fund_result(s.contests[contest as int], contest, funder, amount)->Ok_0.1;
                assert(t.credits == s.credits.push(v));
                assert(t.issued == s.issued.push(credits_for(amount)));
                assert(v.allocated_votes == amount / EXCHANGE_RATE);
                assert(amount / EXCHANGE_RATE <= amount) by (nonlinear_arith);
                assert forall|i: int| 0 <= i < t.credits.len() implies
                    #[trigger] t.issued[i] == t.credits[i].allocated_votes
                        + t.credits[i].used_votes && t.issued[i] <= u64::MAX by {
                    if i < s.credits.len() {
                        assert(t.credits[i] == s.credits[i]);
                        assert(t.issued[i] == s.issued[i]);
                    }
                }
            }
        },
        _ => {},
    }
}

/// Every prefix of requests keeps what `lemma_step` states, and the tally
/// of every entry is what it held plus the votes for it that went through.
proof fn lemma_run(s: LedgerView, rs: Seq<Request>)
    ensures
        run(s, rs).contests.len() >= s.contests.len(),
        run(s, rs).entries.len() >= s.entries.len(),
        run(s, rs).issued.len() >= s.issued.len(),
        forall|i: int| 0 <= i < s.issued.len() ==> run(s, rs).issued[i] == s.issued[i],
        forall|c: int|
            0 <= c < s.contests.len() ==> run(s, rs).contests[c].owner == s.contests[c].owner,
        forall|c: int|
            0 <= c < s.contests.len() && s.contests[c].is_closed ==> run(
                s,
                rs,
            ).contests[c].is_closed,
        s.wf() ==> run(s, rs).wf(),
        forall|e: int| tally(run(s, rs), e) == tally(s, e) + committed_votes(s, rs, e),
    decreases rs.len(),
{
    if rs.len() > 0 {
        lemma_run(s, rs.drop_last());
        lemma_step(run(s, rs.drop_last()), rs.last());
    }
}

/// Conservation of credit: through any sequence of requests on a
/// well-formed ledger, each credit's remaining plus spent votes equals the
/// number it was issued with, and an issuance once recorded never changes.
pub proof fn law_credit_conservation(s: LedgerView, rs: Seq<Request>)
    requires
        s.wf(),
    ensures
        run(s, rs).wf(),
        forall|i: int|
            0 <= i < run(s, rs).credits.len() ==> #[trigger] run(s, rs).issued[i] == run(
                s,
                rs,
            ).credits[i].allocated_votes + run(s, rs).credits[i].used_votes,
        forall|i: int| 0 <= i < s.issued.len() ==> run(s, rs).issued[i] == s.issued[i],
{
    lemma_run(s, rs);
}

/// A funding that goes through issues a credit whose remaining plus spent
/// votes is `amount / EXCHANGE_RATE`, with nothing spent.
pub proof fn law_issuance(s: LedgerView, contest: usize, funder: Key, amount: u64)
    requires
        fund_step(s, contest, funder, amount) is Ok,
    ensures
        ({
            let t = fund_step(s, contest, funder, amount)->Ok_0;
            &&& t.credits.len() == s.credits.len() + 1
            &&& t.credits.last().allocated_votes == credits_for(amount)
            &&& t.credits.last().used_votes == 0
            &&& t.issued.last() == credits_for(amount)
        }),
{
}

/// Tallies: through any sequence of requests, the votes an entry holds are
/// what it held before plus the amounts of the votes for it that went
/// through; an entry created on the way starts from none.
pub proof fn law_tally(s: LedgerView, rs: Seq<Request>, e: int)
    ensures
        tally(run(s, rs), e) == tally(s, e) + committed_votes(s, rs, e),
{
    lemma_run(s, rs);
}

/// No overdraft: a vote for more than the credit has left is refused, and
/// the ledger stays as it was.
pub proof fn law_no_overdraft(s: LedgerView, entry: usize, credit: usize, voter: Key, amount: u64)
    requires
        s.credits.len() > credit,
        s.credits[credit as int].allocated_votes < amount,
    ensures
        vote_step(s, entry, credit, voter, amount) is Err,
        after(s, Request::CastVote { entry, credit, voter, amount }) == s,
{
}

/// A vote that goes through changes exactly the entry's tally and the
/// credit's two counters, by its amount, and nothing else.
pub proof fn law_vote_applies_whole(
    s: LedgerView,
    entry: usize,
    credit: usize,
    voter: Key,
    amount: u64,
)
    requires
        s.wf(),
        vote_step(s, entry, credit, voter, amount) is Ok,
    ensures
        ({
            let t = vote_step(s, entry, credit, voter, amount)->Ok_0;
            &&& t.contests == s.contests
            &&& t.issued == s.issued
            &&& t.entries.len() == s.entries.len()
            &&& t.credits.len() == s.credits.len()
            &&& forall|i: int|
                0 <= i < s.entries.len() && i != entry ==> t.entries[i] == s.entries[i]
            &&& forall|i: int|
                0 <= i < s.credits.len() && i != credit ==> t.credits[i] == s.credits[i]
            &&& t.entries[entry as int].votes == s.entries[entry as int].votes + amount
            &&& t.credits[credit as int].allocated_votes == s.credits[credit as int].allocated_votes
                - amount
            &&& t.credits[credit as int].used_votes == s.credits[credit as int].used_votes + amount
            &&& t.entries[entry as int].contest == s.entries[entry as int].contest
            &&& t.entries[entry as int].creator == s.entries[entry as int].creator
            &&& t.entries[entry as int].content_link == s.entries[entry as int].content_link
            &&& t.credits[credit as int].contest == s.credits[credit as int].contest
            &&& t.credits[credit as int].funder == s.credits[credit as int].funder
        }),
{
    assert(s.issued[credit as int] == s.credits[credit as int].allocated_votes
        + s.credits[credit as int].used_votes);
}

/// A vote that spends a credit of one contest on an entry of another is
/// refused with `ContestMismatch`, whoever casts it and whatever its amount.
pub proof fn law_contest_mismatch(s: LedgerView, entry: usize, credit: usize, voter: Key, amount: u64)
    requires
        entry < s.entries.len(),
        credit < s.credits.len(),
        s.entries[entry as int].contest != s.credits[credit as int].contest,
    ensures
        vote_step(s, entry, credit, voter, amount) == Err::<LedgerView, ErrorCode>(
            ErrorCode::ContestMismatch,
        ),
{
}

/// Closing: anyone but the owner is refused with `Unauthorized`, whatever
/// state the contest is in; the owner's first closing goes through and
/// closes it; after that, through any sequence of requests, the owner is
/// refused with `AlreadyClosed` and everyone else with `Unauthorized`.
pub proof fn law_close_once(s: LedgerView, contest: usize, caller: Key, rs: Seq<Request>, later: Key)
    requires
        contest < s.contests.len(),
    ensures
        caller != s.contests[contest as int].owner ==> close_step(s, contest, caller)
            == Err::<LedgerView, ErrorCode>(ErrorCode::Unauthorized),
        caller == s.contests[contest as int].owner && !s.contests[contest as int].is_closed
            ==> close_step(s, contest, caller) is Ok && close_step(
            s,
            contest,
            caller,
        )->Ok_0.contests[contest as int].is_closed,
        close_step(s, contest, caller) is Ok ==> close_step(
            run(close_step(s, contest, caller)->Ok_0, rs),
            contest,
            later,
        ) == Err::<LedgerView, ErrorCode>(
            if later == s.contests[contest as int].owner {
                ErrorCode::AlreadyClosed
            } else {
                ErrorCode::Unauthorized
            },
        ),
{
    if close_step(s, contest, caller) is Ok {
        let t = close_step(s, contest, caller)->Ok_0;
        assert(t.contests[contest as int].is_closed);
        assert(t.contests[contest as int].owner == s.contests[contest as int].owner);
        lemma_run(t, rs);
        let u = run(t, rs);
        assert(u.contests[contest as int].is_closed);
        assert(u.contests[contest as int].owner == s.contests[contest as int].owner);
    }
}

} // verus!
