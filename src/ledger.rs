use vstd::prelude::*;
use crate::key::Key;
use crate::records::{Contest, Entry, Vote, ErrorCode, credits_for};
use crate::bounds::{bounded, lemma_step_bounded, lemma_vote_in_range, lemma_empty_bounded};
use crate::laws::Request;
use crate::program::{
    CreateContest, FundContest, SubmitEntry, VoteForEntry, CloseContest, create_contest,
    fund_contest, submit_entry, vote_for_entry, close_contest, create_result, fund_result,
    submit_result, vote_result, close_result,
};

verus! {

/// The records of a ledger, each addressed by its position, and for each
/// credit the number of votes it was issued with.
pub struct LedgerView {
    pub contests: Seq<Contest>,
    pub entries: Seq<Entry>,
    pub credits: Seq<Vote>,
    pub issued: Seq<nat>,
}

impl LedgerView {
    /// Every credit has an issuance on record, and what is left of it plus
    /// what was spent is that issuance; every contest is bounded.
    pub open spec fn wf(self) -> bool {
        &&& bounded(self)
        &&& self.issued.len() == self.credits.len()
        &&& forall|i: int|
            0 <= i < self.credits.len() ==> {
                &&& #[trigger] self.issued[i] == self.credits[i].allocated_votes
                    + self.credits[i].used_votes
                &&& self.issued[i] <= u64::MAX
            }
    }

    pub open spec fn empty() -> LedgerView {
        LedgerView {
            contests: Seq::empty(),
            entries: Seq::empty(),
            credits: Seq::empty(),
            issued: Seq::empty(),
        }
    }
}

/// The ledger after a contest creation.
pub open spec fn create_step(s: LedgerView, owner: Key, title: String, description: String, deadline: i64)
    -> Result<LedgerView, ErrorCode>
{
    match create_result(owner, title, description, deadline) {
        Ok(c) => Ok(LedgerView { contests: s.contests.push(c), ..s }),
        Err(e) => Err(e),
    }
}

/// The ledger after a funding of contest `contest`.
pub open spec fn fund_step(s: LedgerView, contest: usize, funder: Key, amount: u64)
    -> Result<LedgerView, ErrorCode>
{
    if contest >= s.contests.len() {
        Err(ErrorCode::NotFound)
    } else {
        match fund_result(s.contests[contest as int], contest, funder, amount) {
            Ok((c, v)) => Ok(
                LedgerView {
                    contests: s.contests.update(contest as int, c),
                    credits: s.credits.push(v),
                    issued: s.issued.push(credits_for(amount)),
                    ..s
                },
            ),
            Err(e) => Err(e),
        }
    }
}

/// The ledger after a submission to contest `contest`.
pub open spec fn submit_step(s: LedgerView, contest: usize, creator: Key, content_link: String)
    -> Result<LedgerView, ErrorCode>
{
    if contest >= s.contests.len() {
        Err(ErrorCode::NotFound)
    } else {
        match submit_result(s.contests[contest as int], contest, creator, content_link) {
            Ok(e) => Ok(LedgerView { entries: s.entries.push(e), ..s }),
            Err(e) => Err(e),
        }
    }
}

/// The ledger after `voter` spends `amount` of credit `credit` on entry
/// `entry`.
pub open spec fn vote_step(s: LedgerView, entry: usize, credit: usize, voter: Key, amount: u64)
    -> Result<LedgerView, ErrorCode>
{
    if entry >= s.entries.len() || credit >= s.credits.len() {
        Err(ErrorCode::NotFound)
    } else {
        match vote_result(s.entries[entry as int], s.credits[credit as int], voter, amount) {
            Ok((e, v)) => Ok(
                LedgerView {
                    entries: s.entries.update(entry as int, e),
                    credits: s.credits.update(credit as int, v),
                    ..s
                },
            ),
            Err(e) => Err(e),
        }
    }
}

/// The ledger after `caller` closes contest `contest`.
pub open spec fn close_step(s: LedgerView, contest: usize, caller: Key) -> Result<LedgerView, ErrorCode> {
    if contest >= s.contests.len() {
        Err(ErrorCode::NotFound)
    } else {
        match close_result(s.contests[contest as int], caller) {
            Ok(c) => Ok(LedgerView { contests: s.contests.update(contest as int, c), ..s }),
            Err(e) => Err(e),
        }
    }
}

/// A store of contests, entries and credits, each addressed by the id it was
/// given when created. Every operation applies all of its changes or none.
pub struct Ledger {
    contests: Vec<Contest>,
    entries: Vec<Entry>,
    credits: Vec<Vote>,
    issued: Ghost<Seq<nat>>,
}

impl View for Ledger {
    type V = LedgerView;

    closed spec fn view(&self) -> LedgerView {
        LedgerView {
            contests: self.contests@,
            entries: self.entries@,
            credits: self.credits@,
            issued: self.issued@,
        }
    }
}

impl Ledger {
    /// A ledger with no records.
    pub fn new() -> (r: Ledger)
        ensures
            r@ == LedgerView::empty(),
            r@.wf(),
    {
        let r = Ledger {
            contests: Vec::new(),
            entries: Vec::new(),
            credits: Vec::new(),
            issued: Ghost(Seq::empty()),
        };
        assert(r@ =~= LedgerView::empty());
        proof {
            lemma_empty_bounded();
        }
        r
    }

    /// Opens a new contest owned by `owner` and returns its id.
    pub fn create(&mut self, owner: Key, title: String, description: String, deadline: i64)
        -> (r: Result<usize, ErrorCode>)
        requires
            old(self)@.wf(),
        ensures
            final(self)@.wf(),
            match create_step(old(self)@, owner, title, description, deadline) {
                Ok(s) => r == Ok::<usize, ErrorCode>(old(self)@.contests.len() as usize)
                    && final(self)@ == s,
                Err(e) => r == Err::<usize, ErrorCode>(e) && final(self)@ == old(self)@,
            },
    {
        let ghost req = Request::Create { owner, title, description, deadline };
        let mut ctx = CreateContest { contest: Contest::blank(), owner };
        match create_contest(&mut ctx, title, description, deadline) {
            Ok(()) => {
                self.contests.push(ctx.contest);
                assert(self@ =~= create_step(old(self)@, owner, title, description, deadline)->Ok_0);
                proof {
                    lemma_step_bounded(old(self)@, req);
                }
                Ok(self.contests.len() - 1)
            },
            Err(e) => Err(e),
        }
    }

    /// Adds `amount` to the prize pool of contest `contest` and issues
    /// `funder` a credit of `amount / EXCHANGE_RATE` votes; returns the
    /// credit's id.
    pub fn fund(&mut self, contest: usize, funder: Key, amount: u64) -> (r: Result<usize, ErrorCode>)
        requires
            old(self)@.wf(),
        ensures
            final(self)@.wf(),
            match fund_step(old(self)@, contest, funder, amount) {
                Ok(s) => r == Ok::<usize, ErrorCode>(old(self)@.credits.len() as usize)
                    && final(self)@ == s,
                Err(e) => r == Err::<usize, ErrorCode>(e) && final(self)@ == old(self)@,
            },
    {
        if contest >= self.contests.len() {
            return Err(ErrorCode::NotFound);
        }
        let mut ctx = FundContest {
            contest: Contest::blank(),
            contest_id: contest,
            vote_account: Vote::blank(),
            funder,
        };
        std::mem::swap(&mut self.contests[contest], &mut ctx.contest);
        let r = fund_contest(&mut ctx, amount);
        std::mem::swap(&mut self.contests[contest], &mut ctx.contest);
        match r {
            Ok(()) => {
                self.credits.push(ctx.vote_account);
                self.issued = Ghost(self.issued@.push(credits_for(amount)));
                let ghost t = fund_step(old(self)@, contest, funder, amount)->Ok_0;
                assert(self@.contests =~= t.contests);
                assert(self@.credits =~= t.credits);
                assert(self@.issued =~= t.issued);
                assert(self@ == t);
                proof {
                    lemma_step_bounded(old(self)@, Request::Fund { contest, funder, amount });
                }
                Ok(self.credits.len() - 1)
            },
            Err(e) => {
                assert(self@.contests =~= old(self)@.contests);
                Err(e)
            },
        }
    }
    /// Adds an entry by `creator` to the open contest `contest` and returns
    /// the entry's id.
    pub fn submit(&mut self, contest: usize, creator: Key, content_link: String)
        -> (r: Result<usize, ErrorCode>)
        requires
            old(self)@.wf(),
        ensures
            final(self)@.wf(),
            match submit_step(old(self)@, contest, creator, content_link) {
                Ok(s) => r == Ok::<usize, ErrorCode>(old(self)@.entries.len() as usize)
                    && final(self)@ == s,
                Err(e) => r == Err::<usize, ErrorCode>(e) && final(self)@ == old(self)@,
            },
    {
        let ghost req = Request::Submit { contest, creator, content_link };
        if contest >= self.contests.len() {
            return Err(ErrorCode::NotFound);
        }
        let mut ctx = SubmitEntry {
            contest: Contest::blank(),
            contest_id: contest,
            entry: Entry::blank(),
            participant: creator,
        };
        std::mem::swap(&mut self.contests[contest], &mut ctx.contest);
        let r = submit_entry(&mut ctx, content_link);
        std::mem::swap(&mut self.contests[contest], &mut ctx.contest);
        assert(self@.contests =~= old(self)@.contests);
        match r {
            Ok(()) => {
                self.entries.push(ctx.entry);
                let ghost t = submit_step(old(self)@, contest, creator, content_link)->Ok_0;
                assert(self@.entries =~= t.entries);
                assert(self@ == t);
                proof {
                    lemma_step_bounded(old(self)@, req);
                }
                Ok(self.entries.len() - 1)
            },
            Err(e) => Err(e),
        }
    }

    /// Has `voter` spend `amount` of credit `credit` on entry `entry`. The
    /// entry's tally and the credit's two counters change together or not at
    /// all. Whether the contest is closed is not looked at, and a tally never
    /// leaves its range here.
    pub fn cast_vote(&mut self, entry: usize, credit: usize, voter: Key, amount: u64)
        -> (r: Result<(), ErrorCode>)
        requires
            old(self)@.wf(),
        ensures
            final(self)@.wf(),
            r != Err::<(), ErrorCode>(ErrorCode::InvalidAmount),
            match vote_step(old(self)@, entry, credit, voter, amount) {
                Ok(s) => r is Ok && final(self)@ == s,
                Err(e) => r == Err::<(), ErrorCode>(e) && final(self)@ == old(self)@,
            },
    {
        proof {
            lemma_vote_in_range(old(self)@, entry, credit, voter, amount);
        }
        if entry >= self.entries.len() || credit >= self.credits.len() {
            return Err(ErrorCode::NotFound);
        }
        let mut ctx = VoteForEntry {
            entry: Entry::blank(),
            vote_account: self.credits[credit],
            voter,
        };
        assert(self@.issued[credit as int] == self@.credits[credit as int].allocated_votes
            + self@.credits[credit as int].used_votes);
        std::mem::swap(&mut self.entries[entry], &mut ctx.entry);
        let r = vote_for_entry(&mut ctx, amount);
        std::mem::swap(&mut self.entries[entry], &mut ctx.entry);
        match r {
            Ok(()) => {
                self.credits.set(credit, ctx.vote_account);
                let ghost t = vote_step(old(self)@, entry, credit, voter, amount)->Ok_0;
                assert(self@.entries =~= t.entries);
                assert(self@.credits =~= t.credits);
                assert(self@ == t);
                proof {
                    lemma_step_bounded(old(self)@, Request::CastVote { entry, credit, voter, amount });
                }
                assert forall|i: int| 0 <= i < self@.credits.len() implies
                    #[trigger] self@.issued[i] == self@.credits[i].allocated_votes
                        + self@.credits[i].used_votes && self@.issued[i] <= u64::MAX by {
                    if i != credit as int {
                        assert(self@.credits[i] == old(self)@.credits[i]);
                    }
                }
                Ok(())
            },
            Err(e) => {
                assert(self@.entries =~= old(self)@.entries);
                Err(e)
            },
        }
    }

    /// Closes contest `contest` on behalf of `caller`.
    pub fn close(&mut self, contest: usize, caller: Key) -> (r: Result<(), ErrorCode>)
        requires
            old(self)@.wf(),
        ensures
            final(self)@.wf(),
            match close_step(old(self)@, contest, caller) {
                Ok(s) => r is Ok && final(self)@ == s,
                Err(e) => r == Err::<(), ErrorCode>(e) && final(self)@ == old(self)@,
            },
    {
        if contest >= self.contests.len() {
            return Err(ErrorCode::NotFound);
        }
        let mut ctx = CloseContest { contest: Contest::blank(), owner: caller };
        std::mem::swap(&mut self.contests[contest], &mut ctx.contest);
        let r = close_contest(&mut ctx);
        std::mem::swap(&mut self.contests[contest], &mut ctx.contest);
        match r {
            Ok(()) => {
                let ghost t = close_step(old(self)@, contest, caller)->Ok_0;
                assert(self@.contests =~= t.contests);
                assert(self@ == t);
                proof {
                    lemma_step_bounded(old(self)@, Request::Close { contest, caller });
                }
                Ok(())
            },
            Err(e) => {
                assert(self@.contests =~= old(self)@.contests);
                Err(e)
            },
        }
    }

    /// The contest with id `id`, if there is one.
    pub fn contest(&self, id: usize) -> (r: Option<&Contest>)
        ensures
            r == (if id < self@.contests.len() { Some(&self@.contests[id as int]) } else { None }),
    {
        if id < self.contests.len() {
            Some(&self.contests[id])
        } else {
            None
        }
    }

    /// The entry with id `id`, if there is one.
    pub fn entry(&self, id: usize) -> (r: Option<&Entry>)
        ensures
            r == (if id < self@.entries.len() { Some(&self@.entries[id as int]) } else { None }),
    {
        if id < self.entries.len() {
            Some(&self.entries[id])
        } else {
            None
        }
    }

    /// The credit with id `id`, if there is one.
    pub fn credit(&self, id: usize) -> (r: Option<Vote>)
        ensures
            r == (if id < self@.credits.len() { Some(self@.credits[id as int]) } else { None }),
    {
        if id < self.credits.len() {
            Some(self.credits[id])
        } else {
            None
        }
    }
}

} // verus!
