//! Accounting core of a crowd-funded contest: contests, funding that issues
//! vote credits, entries, and votes that move credits onto entries.
//!
//! `program` holds the five transitions on the records a request touches;
//! `ledger` stores records by id and applies each request all-or-nothing;
//! `laws` states what holds across any sequence of requests; `bounds` shows
//! that a ledger's tallies never leave their range.

pub mod key;
pub mod records;
pub mod program;
pub mod ledger;
pub mod laws;
pub mod bounds;

pub use key::Key;
pub use records::{Contest, Entry, Vote, ErrorCode, EXCHANGE_RATE, CONTEST_SPACE, ENTRY_SPACE};
pub use program::{
    CreateContest, FundContest, SubmitEntry, VoteForEntry, CloseContest, create_contest,
    fund_contest, submit_entry, vote_for_entry, close_contest,
};
pub use ledger::{Ledger, LedgerView};
pub use laws::Request;
