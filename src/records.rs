use vstd::prelude::*;
use vstd::utf8::encode_utf8;
use crate::key::Key;

verus! {

/// Units of funding that buy one vote credit.
pub const EXCHANGE_RATE: u64 = 1_000_000;

/// Bytes of storage given to a contest record, and to an entry record.
pub const CONTEST_SPACE: u64 = 256;
pub const ENTRY_SPACE: u64 = 256;

/// Bytes a contest record takes besides its two texts: a 4-byte length
/// prefix for each text, the deadline, the prize pool, the owner key and the
/// closed flag.
pub const CONTEST_FIXED_BYTES: u64 = 57;

/// Bytes an entry record takes besides its link: two keys, the link's
/// 4-byte length prefix and the tally.
pub const ENTRY_FIXED_BYTES: u64 = 76;

/// A funded competition.
#[derive(Debug)]
pub struct Contest {
    pub title: String,
    pub description: String,
    pub deadline: i64,
    pub prize_pool: u64,
    pub owner: Key,
    pub is_closed: bool,
}

/// A submission to a contest with its vote tally.
#[derive(Debug)]
pub struct Entry {
    pub contest: usize,
    pub creator: Key,
    pub content_link: String,
    pub votes: u64,
}

/// A funder's voting budget in one contest: what is left to spend and what
/// was spent.
#[derive(Clone, Copy, Debug)]
pub struct Vote {
    pub contest: usize,
    pub funder: Key,
    pub allocated_votes: u64,
    pub used_votes: u64,
}

/// Why a request was rejected. A rejected request changes nothing.
#[derive(Clone, Copy, Debug, PartialEq, Eq, Structural)]
pub enum ErrorCode {
    ContestClosed,
    ContestMismatch,
    UnauthorizedVoter,
    InsufficientVotes,
    Unauthorized,
    NotFound,
    AlreadyClosed,
    InvalidAmount,
    InvalidInput,
}

/// Number of bytes of the UTF-8 encoding of a text.
pub open spec fn byte_len(s: Seq<char>) -> nat {
    encode_utf8(s).len()
}

/// Whether a contest with these texts fits its storage.
pub open spec fn contest_fits(title: Seq<char>, description: Seq<char>) -> bool {
    CONTEST_FIXED_BYTES + byte_len(title) + byte_len(description) <= CONTEST_SPACE
}

/// Whether an entry with this link fits its storage.
pub open spec fn entry_fits(content_link: Seq<char>) -> bool {
    ENTRY_FIXED_BYTES + byte_len(content_link) <= ENTRY_SPACE
}

/// Credits issued for a funding amount; the remainder is forfeited.
pub open spec fn credits_for(amount: u64) -> nat {
    (amount / EXCHANGE_RATE) as nat
}

impl Contest {
    /// A storage slot not yet filled in.
    pub fn blank() -> (r: Contest)
        ensures
            r.title@ == Seq::<char>::empty(),
            r.description@ == Seq::<char>::empty(),
            r.deadline == 0,
            r.prize_pool == 0,
            !r.is_closed,
    {
        Contest {
            title: String::new(),
            description: String::new(),
            deadline: 0,
            prize_pool: 0,
            owner: Key::new([0u8; 32]),
            is_closed: false,
        }
    }
}

impl Entry {
    /// A storage slot not yet filled in.
    pub fn blank() -> (r: Entry)
        ensures
            r.content_link@ == Seq::<char>::empty(),
            r.votes == 0,
    {
        Entry { contest: 0, creator: Key::new([0u8; 32]), content_link: String::new(), votes: 0 }
    }
}

impl Vote {
    /// A storage slot not yet filled in.
    pub fn blank() -> (r: Vote)
        ensures
            r.allocated_votes == 0,
            r.used_votes == 0,
    {
        Vote { contest: 0, funder: Key::new([0u8; 32]), allocated_votes: 0, used_votes: 0 }
    }

    /// Remaining and spent credit together fit the counter's range, as they
    /// do for every credit issued from a `u64` amount.
    pub open spec fn wf(&self) -> bool {
        self.allocated_votes + self.used_votes <= u64::MAX
    }
}

} // verus!
