//! The poll registry: the single source of truth for poll existence,
//! option lists, open state and tallies, together with the monotonic
//! identifier allocator and the request shapes the operations take.

use vstd::prelude::*;

use crate::poll::has_option;
use crate::poll::lemma_tally_sum_push;
use crate::poll::lemma_tally_sum_zero;
use crate::poll::option_index;
use crate::poll::tally_sum;
use crate::poll::OptionId;
use crate::poll::OptionItem;
use crate::poll::OptionView;
use crate::poll::Poll;
use crate::poll::PollId;
use crate::poll::PollView;
use crate::poll::VoteError;
use crate::poll::VoterId;

verus! {

/// Why a registry operation other than a vote failed; no partial
/// mutation accompanies any of these.
#[derive(Clone, Copy, Debug, PartialEq, Eq, Structural)]
pub enum RegistryError {
    /// The addressed poll does not exist.
    NotFound,
    /// A poll with the supplied identifier already exists.
    AlreadyExists,
    /// The addressed poll already has an option with the supplied
    /// identifier.
    OptionAlreadyExists,
}

/// A vote to be validated and applied: which poll, which option, and
/// the opaque token of the voter casting it.
pub struct VoteRequest {
    pub poll_id: PollId,
    pub option_id: OptionId,
    pub voter_id: VoterId,
}

/// Shorthand creation request: question and option labels only; the
/// identifier is drawn from the allocator and the poll opens at once.
pub struct CreatePollRequest {
    pub question: String,
    pub options: Vec<String>,
}

/// Full creation request: an optional explicit identifier, an optional
/// initial open state (open when absent), and optional option labels.
pub struct CreatePollInput {
    pub id: Option<PollId>,
    pub question: String,
    pub is_open: Option<bool>,
    pub options: Option<Vec<String>>,
}

/// Request to append one option to an existing poll.
pub struct AddOptionRequest {
    pub id: OptionId,
    pub poll_id: PollId,
    pub label: String,
}

/// A human-readable failure report, as handed to external callers.
pub struct ApiError {
    pub message: String,
}

impl ApiError {
    pub fn new(message: String) -> (r: ApiError)
        ensures
            r.message == message,
    {
        ApiError { message }
    }
}

impl CreatePollRequest {
    /// The full-form input this shorthand stands for: no explicit
    /// identifier, default open state.
    pub fn into_input(self) -> (r: CreatePollInput)
        ensures
            r.id is None,
            r.question == self.question,
            r.is_open is None,
            r.options == Some(self.options),
    {
        CreatePollInput { id: None, question: self.question, is_open: None, options: Some(self.options) }
    }
}

impl CreatePollInput {
    /// The option labels the new poll starts with.
    pub open spec fn labels(self) -> Seq<Seq<char>> {
        match self.options {
            Some(os) => os@.map_values(|s: String| s@),
            None => Seq::empty(),
        }
    }

    /// The open state the new poll starts with.
    pub open spec fn open_flag(self) -> bool {
        match self.is_open {
            Some(b) => b,
            None => true,
        }
    }
}

/// The options a freshly created poll starts with: the given labels,
/// numbered 1..N in the order supplied, every tally zero.
pub open spec fn fresh_options(labels: Seq<Seq<char>>) -> Seq<OptionView> {
    Seq::new(labels.len(), |i: int| OptionView { id: (i + 1) as OptionId, label: labels[i], votes: 0 })
}

/// The state of a freshly created poll.
pub open spec fn created_poll(
    id: PollId,
    question: Seq<char>,
    labels: Seq<Seq<char>>,
    is_open: bool,
) -> PollView {
    PollView { id, question, is_open, options: fresh_options(labels), voters: Seq::empty() }
}

/// Produces new poll identifiers: monotonically increasing, never
/// reused for the lifetime of the process.  The counter is wider than
/// the identifier type so that advancing it past an explicitly
/// supplied identifier can never wrap.
pub struct IdAllocator {
    pub next: u64,
}

impl IdAllocator {
    /// An allocator whose first drawn identifier will be `seed`; the
    /// seed is chosen above any identifier reserved for pre-seeded
    /// polls.
    pub fn new(seed: PollId) -> (r: IdAllocator)
        ensures
            r.next == seed,
    {
        IdAllocator { next: seed as u64 }
    }

    /// Whether an identifier can still be drawn.
    pub fn can_allocate(&self) -> (r: bool)
        ensures
            r == (self.next <= u32::MAX),
    {
        self.next <= u32::MAX as u64
    }

    /// Draw the next identifier.  Each call strictly advances the
    /// counter, so no two calls ever return the same value.
    pub fn next_id(&mut self) -> (r: PollId)
        requires
            old(self).next <= u32::MAX,
        ensures
            r == old(self).next,
            final(self).next == old(self).next + 1,
    {
        let id = self.next as u32;
        self.next = self.next + 1;
        id
    }

    /// Advance the counter past an explicitly supplied identifier, so
    /// that no later draw can collide with it.
    pub fn bump_past(&mut self, id: PollId)
        ensures
            final(self).next == if old(self).next > id + 1 {
                old(self).next as int
            } else {
                id + 1
            },
    {
        let candidate = (id as u64) + 1;
        if candidate > self.next {
            self.next = candidate;
        }
    }
}

/// Mathematical image of the registry: the polls it holds and the
/// allocator's counter.
#[verifier::ext_equal]
pub ghost struct RegistryView {
    pub polls: Seq<PollView>,
    pub next_id: int,
}

impl RegistryView {
    /// Well-formedness: every poll is well-formed, poll identifiers are
    /// unique, and every identifier in use lies below the allocator's
    /// counter (the allocator is advanced past explicitly supplied
    /// identifiers, so a drawn identifier never collides).
    pub open spec fn wf(self) -> bool {
        &&& forall|i: int| 0 <= i < self.polls.len() ==> (#[trigger] self.polls[i]).wf()
        &&& forall|i: int, j: int|
            0 <= i < j < self.polls.len() ==> self.polls[i].id != self.polls[j].id
        &&& forall|i: int| 0 <= i < self.polls.len() ==> (#[trigger] self.polls[i]).id < self.next_id
    }

    /// Some poll carries this identifier.
    pub open spec fn has_poll(self, poll_id: PollId) -> bool {
        exists|i: int| 0 <= i < self.polls.len() && self.polls[i].id == poll_id
    }

    /// Index of the poll carrying this identifier; meaningful only when
    /// `has_poll` holds, and unique under `wf`.
    pub open spec fn poll_index(self, poll_id: PollId) -> int {
        choose|i: int| 0 <= i < self.polls.len() && self.polls[i].id == poll_id
    }

    /// The poll carrying this identifier.
    pub open spec fn poll_at(self, poll_id: PollId) -> PollView {
        self.polls[self.poll_index(poll_id)]
    }
}

/// Under unique identifiers, an index whose poll carries the looked-up
/// identifier is the index the lookup denotes.
pub proof fn lemma_poll_index_agrees(v: RegistryView, k: int, poll_id: PollId)
    requires
        v.wf(),
        0 <= k < v.polls.len(),
        v.polls[k].id == poll_id,
    ensures
        v.has_poll(poll_id),
        v.poll_index(poll_id) == k,
{
    assert(v.has_poll(poll_id));
    let i0 = v.poll_index(poll_id);
    if i0 != k {
        assert(false);  // two distinct polls would share an identifier
    }
}

/// Law: in a well-formed registry, every poll's option tallies sum to
/// the number of its recorded voters, at all times.
pub proof fn lemma_registry_tallies_match_voters(v: RegistryView, poll_id: PollId)
    requires
        v.wf(),
        v.has_poll(poll_id),
    ensures
        tally_sum(v.poll_at(poll_id).options) == v.poll_at(poll_id).voters.len(),
{
    let k = v.poll_index(poll_id);
    assert(v.polls[k].wf());
}

/// The mapping from poll identifier to poll state, owned by the
/// service process; every mutation and every consistent multi-field
/// read goes through one of its operations.
pub struct Registry {
    pub polls: Vec<Poll>,
    pub alloc: IdAllocator,
}

impl View for Registry {
    type V = RegistryView;

    open spec fn view(&self) -> RegistryView {
        RegistryView {
            polls: self.polls@.map_values(|p: Poll| p@),
            next_id: self.alloc.next as int,
        }
    }
}

impl Registry {
    /// An empty registry whose allocator will draw `first_auto_id`
    /// first.
    pub fn new(first_auto_id: PollId) -> (r: Registry)
        ensures
            r@.polls == Seq::<PollView>::empty(),
            r@.next_id == first_auto_id,
            r@.wf(),
    {
        let r = Registry { polls: Vec::new(), alloc: IdAllocator::new(first_auto_id) };
        proof {
            assert(r@.polls =~= Seq::<PollView>::empty());
        }
        r
    }

    /// Index of the poll carrying `poll_id`, if any.
    fn find_index(&self, poll_id: PollId) -> (r: Option<usize>)
        ensures
            match r {
                Some(k) => k < self@.polls.len() && self@.polls[k as int].id == poll_id,
                None => !self@.has_poll(poll_id),
            },
    {
        let n = self.polls.len();
        let mut i: usize = 0;
        while i < n
            invariant
                n == self.polls.len(),
                i <= n,
                forall|k: int| 0 <= k < i ==> self@.polls[k].id != poll_id,
            decreases n - i,
        {
            if self.polls[i].id == poll_id {
                return Some(i);
            }
            i = i + 1;
        }
        None
    }

    /// A consistent snapshot of one poll, or `None` when no poll
    /// carries the identifier.
    pub fn get(&self, poll_id: PollId) -> (r: Option<Poll>)
        requires
            self@.wf(),
        ensures
            self@.has_poll(poll_id) ==> (r matches Some(p) && p@ == self@.poll_at(poll_id)),
            !self@.has_poll(poll_id) ==> r is None,
    {
        match self.find_index(poll_id) {
            Some(k) => {
                proof {
                    lemma_poll_index_agrees(self@, k as int, poll_id);
                }
                Some(self.polls[k].snapshot())
            },
            None => None,
        }
    }

    /// Create a poll.  An explicit identifier that is already in use is
    /// rejected with `AlreadyExists` and nothing changes; otherwise the
    /// poll is added with its options numbered 1..N in the order the
    /// labels were supplied, every tally zero and no voters, and a
    /// snapshot of it is returned.  The allocator is advanced past any
    /// explicitly supplied identifier, so a drawn identifier never
    /// collides with an earlier poll.
    pub fn create(&mut self, input: CreatePollInput) -> (r: Result<Poll, RegistryError>)
        requires
            old(self)@.wf(),
            // option identifiers are numbered 1..N, so N must fit the type
            input.labels().len() <= u32::MAX,
            // the identifier space must not be exhausted when a draw is needed
            input.id is None ==> old(self)@.next_id <= u32::MAX,
        ensures
            final(self)@.wf(),
            ({
                let v = old(self)@;
                if input.id matches Some(id) && v.has_poll(id) {
                    r == Err::<Poll, RegistryError>(RegistryError::AlreadyExists) && final(self)@
                        == old(self)@
                } else {
                    let id = match input.id {
                        Some(id) => id as int,
                        None => v.next_id,
                    };
                    let p = created_poll(id as PollId, input.question@, input.labels(), input.open_flag());
                    &&& (r matches Ok(snap) && snap@ == p)
                    &&& final(self)@.polls == v.polls.push(p)
                    &&& final(self)@.has_poll(id as PollId)
                    &&& final(self)@.poll_at(id as PollId) == p
                    &&& final(self)@.next_id == if v.next_id > id + 1 {
                        v.next_id
                    } else {
                        id + 1
                    }
                }
            }),
    {
        let id: PollId = match input.id {
            Some(id) => {
                match self.find_index(id) {
                    Some(k) => {
                        proof {
                            lemma_poll_index_agrees(self@, k as int, id);
                        }
                        return Err(RegistryError::AlreadyExists);
                    },
                    None => {},
                }
                self.alloc.bump_past(id);
                id
            },
            None => self.alloc.next_id(),
        };
        let labels: Vec<String> = match input.options {
            Some(os) => os,
            None => Vec::new(),
        };
        let ghost label_views = labels@.map_values(|s: String| s@);
        proof {
            assert(label_views =~= input.labels());
        }
        let n = labels.len();
        let mut options: Vec<OptionItem> = Vec::new();
        let mut i: usize = 0;
        while i < n
            invariant
                n == labels.len(),
                n <= u32::MAX,
                i <= n,
                options@.len() == i,
                label_views == labels@.map_values(|s: String| s@),
                forall|k: int|
                    0 <= k < i ==> #[trigger] options@[k]@ == (OptionView {
                        id: (k + 1) as OptionId,
                        label: label_views[k],
                        votes: 0,
                    }),
            decreases n - i,
        {
            let item = OptionItem { id: (i as u32) + 1, label: labels[i].clone(), votes: 0 };
            options.push(item);
            i = i + 1;
        }
        let is_open = match input.is_open {
            Some(b) => b,
            None => true,
        };
        let poll = Poll { id, question: input.question, is_open, options, voters: Vec::new() };
        let snap = poll.snapshot();
        let ghost p = poll@;
        proof {
            assert(p.options =~= fresh_options(label_views));
            assert(p =~= created_poll(id, p.question, label_views, is_open));
            lemma_tally_sum_zero(p.options);
            assert(p.wf());
        }
        self.polls.push(poll);
        proof {
            assert(self@.polls =~= old(self)@.polls.push(p));
            lemma_poll_index_agrees(self@, old(self)@.polls.len() as int, id);
        }
        Ok(snap)
    }

    /// Append one option to an existing poll.  Fails with `NotFound`
    /// when no poll carries `poll_id` and with `OptionAlreadyExists`
    /// when the poll already has an option with this identifier; either
    /// failure leaves the registry exactly as it was.  On success the
    /// option starts with a zero tally and a copy of it is returned.
    pub fn add_option(&mut self, poll_id: PollId, option_id: OptionId, label: String) -> (r: Result<
        OptionItem,
        RegistryError,
    >)
        requires
            old(self)@.wf(),
        ensures
            final(self)@.wf(),
            ({
                let v = old(self)@;
                if !v.has_poll(poll_id) {
                    r == Err::<OptionItem, RegistryError>(RegistryError::NotFound) && final(self)@
                        == old(self)@
                } else if has_option(v.poll_at(poll_id).options, option_id) {
                    r == Err::<OptionItem, RegistryError>(RegistryError::OptionAlreadyExists)
                        && final(self)@ == old(self)@
                } else {
                    let k = v.poll_index(poll_id);
                    let ov = OptionView { id: option_id, label: label@, votes: 0 };
                    let p = v.polls[k];
                    &&& (r matches Ok(o) && o@ == ov)
                    &&& final(self)@.polls == v.polls.update(
                        k,
                        PollView { options: p.options.push(ov), ..p },
                    )
                    &&& final(self)@.has_poll(poll_id)
                    &&& final(self)@.poll_at(poll_id) == (PollView {
                        options: p.options.push(ov),
                        ..p
                    })
                    &&& final(self)@.next_id == v.next_id
                }
            }),
    {
        let k = match self.find_index(poll_id) {
            Some(k) => k,
            None => {
                return Err(RegistryError::NotFound);
            },
        };
        proof {
            lemma_poll_index_agrees(self@, k as int, poll_id);
        }
        let ghost v = old(self)@;
        let ghost p = v.polls[k as int];
        match self.polls[k].find_option(option_id) {
            Some(_) => {
                return Err(RegistryError::OptionAlreadyExists);
            },
            None => {},
        }
        let item = OptionItem { id: option_id, label, votes: 0 };
        let copy = item.snapshot();
        let mut poll = self.polls.remove(k);
        poll.options.push(item);
        proof {
            assert(poll@.options =~= p.options.push(item@));
            lemma_tally_sum_push(p.options, item@);
            assert(poll@.wf());
        }
        self.polls.insert(k, poll);
        proof {
            assert(self@.polls =~= v.polls.update(
                k as int,
                PollView { options: p.options.push(item@), ..p },
            ));
            lemma_poll_index_agrees(self@, k as int, poll_id);
        }
        Ok(copy)
    }

    /// Validate one vote against the addressed poll and, when it
    /// passes, commit the tally increment and the voter record as one
    /// atomic step; a snapshot of the updated poll is returned for
    /// broadcast.  Any failure leaves the registry exactly as it was:
    /// `PollNotFound` for an unknown poll, then `PollClosed` for a poll
    /// not accepting votes, then `AlreadyVoted` for a repeat voter, then
    /// `OptionNotFound` for an unknown option, checked in that order.
    pub fn apply_vote(&mut self, poll_id: PollId, option_id: OptionId, voter_id: VoterId) -> (r:
        Result<Poll, VoteError>)
        requires
            old(self)@.wf(),
        ensures
            final(self)@.wf(),
            ({
                let v = old(self)@;
                if !v.has_poll(poll_id) {
                    r == Err::<Poll, VoteError>(VoteError::PollNotFound) && final(self)@
                        == old(self)@
                } else {
                    let k = v.poll_index(poll_id);
                    let p = v.polls[k];
                    if !p.is_open {
                        r == Err::<Poll, VoteError>(VoteError::PollClosed) && final(self)@
                            == old(self)@
                    } else if p.voters.contains(voter_id) {
                        r == Err::<Poll, VoteError>(VoteError::AlreadyVoted) && final(self)@
                            == old(self)@
                    } else if !has_option(p.options, option_id) {
                        r == Err::<Poll, VoteError>(VoteError::OptionNotFound) && final(self)@
                            == old(self)@
                    } else {
                        let updated = p.voted(option_index(p.options, option_id), voter_id);
                        &&& (r matches Ok(snap) && snap@ == updated)
                        &&& final(self)@.polls == v.polls.update(k, updated)
                        &&& final(self)@.has_poll(poll_id)
                        &&& final(self)@.poll_at(poll_id) == updated
                        &&& final(self)@.next_id == v.next_id
                    }
                }
            }),
    {
        let k = match self.find_index(poll_id) {
            Some(k) => k,
            None => {
                return Err(VoteError::PollNotFound);
            },
        };
        proof {
            lemma_poll_index_agrees(self@, k as int, poll_id);
        }
        let ghost v = old(self)@;
        let ghost p = v.polls[k as int];
        let mut poll = self.polls.remove(k);
        match poll.cast_vote(option_id, voter_id) {
            Ok(_) => {
                let snap = poll.snapshot();
                self.polls.insert(k, poll);
                proof {
                    assert(self@.polls =~= v.polls.update(
                        k as int,
                        p.voted(option_index(p.options, option_id), voter_id),
                    ));
                    lemma_poll_index_agrees(self@, k as int, poll_id);
                }
                Ok(snap)
            },
            Err(e) => {
                self.polls.insert(k, poll);
                proof {
                    assert(self.polls@ =~= old(self).polls@);
                    assert(self@ =~= old(self)@);
                }
                Err(e)
            },
        }
    }

    /// A consistent snapshot of every poll, not a live view.
    pub fn list(&self) -> (r: Vec<Poll>)
        ensures
            r@.map_values(|p: Poll| p@) == self@.polls,
    {
        let n = self.polls.len();
        let mut r: Vec<Poll> = Vec::new();
        let mut i: usize = 0;
        while i < n
            invariant
                n == self.polls.len(),
                i <= n,
                r@.len() == i,
                forall|k: int| 0 <= k < i ==> r@[k]@ == self@.polls[k],
            decreases n - i,
        {
            let p = self.polls[i].snapshot();
            r.push(p);
            i = i + 1;
        }
        proof {
            assert(r@.map_values(|p: Poll| p@) =~= self@.polls);
        }
        r
    }
}

} // verus!
