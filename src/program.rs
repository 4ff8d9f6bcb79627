use vstd::prelude::*;
use crate::key::Key;
use crate::records::{
    Contest, Entry, Vote, ErrorCode, EXCHANGE_RATE, CONTEST_SPACE, ENTRY_SPACE,
    CONTEST_FIXED_BYTES, ENTRY_FIXED_BYTES, contest_fits, entry_fits,
};

verus! {

/// The records a contest creation works on: the new contest's storage and
/// the identity that will own it.
pub struct CreateContest {
    pub contest: Contest,
    pub owner: Key,
}

/// The records a funding works on: the funded contest (with its id), the new
/// credit's storage and the funder.
pub struct FundContest {
    pub contest: Contest,
    pub contest_id: usize,
    pub vote_account: Vote,
    pub funder: Key,
}

/// The records a submission works on: the contest (with its id), the new
/// entry's storage and the participant.
pub struct SubmitEntry {
    pub contest: Contest,
    pub contest_id: usize,
    pub entry: Entry,
    pub participant: Key,
}

/// The records a vote works on: the entry voted for, the credit spent and the
/// identity casting the vote.
pub struct VoteForEntry {
    pub entry: Entry,
    pub vote_account: Vote,
    pub voter: Key,
}

/// The records a closing works on: the contest and the caller.
pub struct CloseContest {
    pub contest: Contest,
    pub owner: Key,
}

/// The contest that a creation stores, or why it is refused.
pub open spec fn create_result(owner: Key, title: String, description: String, deadline: i64)
    -> Result<Contest, ErrorCode>
{
    if !contest_fits(title@, description@) {
        Err(ErrorCode::InvalidInput)
    } else {
        Ok(Contest { title, description, deadline, prize_pool: 0, owner, is_closed: false })
    }
}

/// The contest and the new credit after a funding, or why it is refused.
pub open spec fn fund_result(contest: Contest, contest_id: usize, funder: Key, amount: u64)
    -> Result<(Contest, Vote), ErrorCode>
{
    if amount == 0 || contest.prize_pool + amount > u64::MAX {
        Err(ErrorCode::InvalidAmount)
    } else {
        Ok((
            Contest { prize_pool: (contest.prize_pool + amount) as u64, ..contest },
            Vote {
                contest: contest_id,
                funder,
                allocated_votes: (amount / EXCHANGE_RATE) as u64,
                used_votes: 0,
            },
        ))
    }
}

/// The entry that a submission stores, or why it is refused.
pub open spec fn submit_result(contest: Contest, contest_id: usize, creator: Key, content_link: String)
    -> Result<Entry, ErrorCode>
{
    if contest.is_closed {
        Err(ErrorCode::ContestClosed)
    } else if !entry_fits(content_link@) {
        Err(ErrorCode::InvalidInput)
    } else {
        Ok(Entry { contest: contest_id, creator, content_link, votes: 0 })
    }
}

/// The entry and credit after a vote, or why it is refused. The checks come
/// in this order; a tally that would leave the counter's range is refused
/// last.
pub open spec fn vote_result(entry: Entry, credit: Vote, voter: Key, amount: u64)
    -> Result<(Entry, Vote), ErrorCode>
{
    if entry.contest != credit.contest {
        Err(ErrorCode::ContestMismatch)
    } else if credit.funder != voter {
        Err(ErrorCode::UnauthorizedVoter)
    } else if credit.allocated_votes < amount {
        Err(ErrorCode::InsufficientVotes)
    } else if entry.votes + amount > u64::MAX {
        Err(ErrorCode::InvalidAmount)
    } else {
        Ok((
            Entry { votes: (entry.votes + amount) as u64, ..entry },
            Vote {
                allocated_votes: (credit.allocated_votes - amount) as u64,
                used_votes: (credit.used_votes + amount) as u64,
                ..credit
            },
        ))
    }
}

/// The contest after a closing, or why it is refused.
pub open spec fn close_result(contest: Contest, caller: Key) -> Result<Contest, ErrorCode> {
    if contest.owner != caller {
        Err(ErrorCode::Unauthorized)
    } else if contest.is_closed {
        Err(ErrorCode::AlreadyClosed)
    } else {
        Ok(Contest { is_closed: true, ..contest })
    }
}

/// Fills in a new contest owned by `ctx.owner`, with an empty prize pool.
pub fn create_contest(ctx: &mut CreateContest, title: String, description: String, deadline: i64)
    -> (r: Result<(), ErrorCode>)
    ensures
        final(ctx).owner == old(ctx).owner,
        match create_result(old(ctx).owner, title, description, deadline) {
            Ok(c) => r is Ok && final(ctx).contest == c,
            Err(e) => r == Err::<(), ErrorCode>(e) && final(ctx).contest == old(ctx).contest,
        },
{
    let t = title.as_str().as_bytes().len();
    let d = description.as_str().as_bytes().len();
    if t > CONTEST_SPACE as usize || d > CONTEST_SPACE as usize
        || CONTEST_FIXED_BYTES as usize + t + d > CONTEST_SPACE as usize {
        return Err(ErrorCode::InvalidInput);
    }
    ctx.contest.title = title;
    ctx.contest.description = description;
    ctx.contest.deadline = deadline;
    ctx.contest.prize_pool = 0;
    ctx.contest.owner = ctx.owner;
    ctx.contest.is_closed = false;
    Ok(())
}

/// Adds `amount` to the contest's prize pool and issues a credit of
/// `amount / EXCHANGE_RATE` votes to the funder. A closed contest can still
/// be funded.
pub fn fund_contest(ctx: &mut FundContest, amount: u64) -> (r: Result<(), ErrorCode>)
    ensures
        final(ctx).contest_id == old(ctx).contest_id,
        final(ctx).funder == old(ctx).funder,
        match fund_result(old(ctx).contest, old(ctx).contest_id, old(ctx).funder, amount) {
            Ok((c, v)) => r is Ok && final(ctx).contest == c && final(ctx).vote_account == v,
            Err(e) => r == Err::<(), ErrorCode>(e) && final(ctx).contest == old(ctx).contest
                && final(ctx).vote_account == old(ctx).vote_account,
        },
{
    if amount == 0 || ctx.contest.prize_pool > u64::MAX - amount {
        return Err(ErrorCode::InvalidAmount);
    }
    ctx.contest.prize_pool = ctx.contest.prize_pool + amount;
    ctx.vote_account.contest = ctx.contest_id;
    ctx.vote_account.funder = ctx.funder;
    ctx.vote_account.allocated_votes = amount / EXCHANGE_RATE;
    ctx.vote_account.used_votes = 0;
    Ok(())
}

/// Fills in a new entry by `ctx.participant` on an open contest, with no
/// votes.
pub fn submit_entry(ctx: &mut SubmitEntry, content_link: String) -> (r: Result<(), ErrorCode>)
    ensures
        final(ctx).contest == old(ctx).contest,
        final(ctx).contest_id == old(ctx).contest_id,
        final(ctx).participant == old(ctx).participant,
        match submit_result(old(ctx).contest, old(ctx).contest_id, old(ctx).participant, content_link) {
            Ok(e) => r is Ok && final(ctx).entry == e,
            Err(err) => r == Err::<(), ErrorCode>(err) && final(ctx).entry == old(ctx).entry,
        },
{
    if ctx.contest.is_closed {
        return Err(ErrorCode::ContestClosed);
    }
    let n = content_link.as_str().as_bytes().len();
    if n > ENTRY_SPACE as usize || ENTRY_FIXED_BYTES as usize + n > ENTRY_SPACE as usize {
        return Err(ErrorCode::InvalidInput);
    }
    ctx.entry.contest = ctx.contest_id;
    ctx.entry.creator = ctx.participant;
    ctx.entry.content_link = content_link;
    ctx.entry.votes = 0;
    Ok(())
}

/// Moves `votes` credits from the voter's credit onto the entry's tally, or
/// changes nothing. Closed contests are not checked: voting stays possible
/// after closing. A vote of zero passes every check and changes nothing.
pub fn vote_for_entry(ctx: &mut VoteForEntry, votes: u64) -> (r: Result<(), ErrorCode>)
    requires
        old(ctx).vote_account.wf(),
    ensures
        final(ctx).voter == old(ctx).voter,
        match vote_result(old(ctx).entry, old(ctx).vote_account, old(ctx).voter, votes) {
            Ok((e, v)) => r is Ok && final(ctx).entry == e && final(ctx).vote_account == v,
            Err(err) => r == Err::<(), ErrorCode>(err) && final(ctx).entry == old(ctx).entry
                && final(ctx).vote_account == old(ctx).vote_account,
        },
{
    if ctx.entry.contest != ctx.vote_account.contest {
        return Err(ErrorCode::ContestMismatch);
    }
    if !(ctx.vote_account.funder == ctx.voter) {
        return Err(ErrorCode::UnauthorizedVoter);
    }
    if ctx.vote_account.allocated_votes < votes {
        return Err(ErrorCode::InsufficientVotes);
    }
    if ctx.entry.votes > u64::MAX - votes {
        return Err(ErrorCode::InvalidAmount);
    }
    ctx.entry.votes = ctx.entry.votes + votes;
    ctx.vote_account.used_votes = ctx.vote_account.used_votes + votes;
    ctx.vote_account.allocated_votes = ctx.vote_account.allocated_votes - votes;
    Ok(())
}

/// Marks the contest closed. Only its owner may, and only once.
pub fn close_contest(ctx: &mut CloseContest) -> (r: Result<(), ErrorCode>)
    ensures
        final(ctx).owner == old(ctx).owner,
        match close_result(old(ctx).contest, old(ctx).owner) {
            Ok(c) => r is Ok && final(ctx).contest == c,
            Err(e) => r == Err::<(), ErrorCode>(e) && final(ctx).contest == old(ctx).contest,
        },
{
    if !(ctx.contest.owner == ctx.owner) {
        return Err(ErrorCode::Unauthorized);
    }
    if ctx.contest.is_closed {
        return Err(ErrorCode::AlreadyClosed);
    }
    ctx.contest.is_closed = true;
    Ok(())
}

} // verus!
