//! Polls, their options, and the single-poll vote transition.

use vstd::prelude::*;

verus! {

pub type PollId = u32;

pub type OptionId = u32;

/// A voter is an opaque 128-bit token supplied by the caller; the core
/// trusts it as given and never interprets it.
pub type VoterId = u128;

/// Why a vote request was rejected; no partial mutation accompanies any
/// of these.
#[derive(Clone, Copy, Debug, PartialEq, Eq, Structural)]
pub enum VoteError {
    PollNotFound,
    PollClosed,
    AlreadyVoted,
    OptionNotFound,
}

/// Mathematical image of one selectable option.
#[verifier::ext_equal]
pub ghost struct OptionView {
    pub id: OptionId,
    pub label: Seq<char>,
    pub votes: u64,
}

/// One selectable answer within a poll, with its own tally.
pub struct OptionItem {
    pub id: OptionId,
    pub label: String,
    pub votes: u64,
}

impl View for OptionItem {
    type V = OptionView;

    open spec fn view(&self) -> OptionView {
        OptionView { id: self.id, label: self.label@, votes: self.votes }
    }
}

/// Mathematical image of a poll: options in display order, voters in
/// the order their votes were committed.
#[verifier::ext_equal]
pub ghost struct PollView {
    pub id: PollId,
    pub question: Seq<char>,
    pub is_open: bool,
    pub options: Seq<OptionView>,
    pub voters: Seq<VoterId>,
}

/// A votable question with its options and the record of who has voted.
pub struct Poll {
    pub id: PollId,
    pub question: String,
    pub is_open: bool,
    pub options: Vec<OptionItem>,
    pub voters: Vec<VoterId>,
}

impl View for Poll {
    type V = PollView;

    open spec fn view(&self) -> PollView {
        PollView {
            id: self.id,
            question: self.question@,
            is_open: self.is_open,
            options: self.options@.map_values(|o: OptionItem| o@),
            voters: self.voters@,
        }
    }
}

/// Sum of all option tallies of a poll.
pub open spec fn tally_sum(options: Seq<OptionView>) -> int
    decreases options.len(),
{
    if options.len() == 0 {
        0
    } else {
        tally_sum(options.drop_last()) + options.last().votes
    }
}

/// Option identifiers are unique within one poll.
pub open spec fn option_ids_unique(options: Seq<OptionView>) -> bool {
    forall|i: int, j: int|
        0 <= i < j < options.len() ==> options[i].id != options[j].id
}

/// Some option of the poll carries this identifier.
pub open spec fn has_option(options: Seq<OptionView>, option_id: OptionId) -> bool {
    exists|i: int| 0 <= i < options.len() && options[i].id == option_id
}

/// Index of the option carrying this identifier; meaningful only when
/// `has_option` holds, and unique under `option_ids_unique`.
pub open spec fn option_index(options: Seq<OptionView>, option_id: OptionId) -> int {
    choose|i: int| 0 <= i < options.len() && options[i].id == option_id
}

impl PollView {
    /// Well-formedness: no option identifier repeats, no voter is
    /// recorded twice, and the tallies sum to the number of voters.
    pub open spec fn wf(self) -> bool {
        &&& option_ids_unique(self.options)
        &&& self.voters.no_duplicates()
        &&& tally_sum(self.options) == self.voters.len()
    }

    /// The poll after a committed vote: the option at index `j` gains
    /// one vote and the voter is recorded; nothing else moves.
    pub open spec fn voted(self, j: int, voter_id: VoterId) -> PollView {
        PollView {
            options: self.options.update(
                j,
                OptionView { votes: (self.options[j].votes + 1) as u64, ..self.options[j] },
            ),
            voters: self.voters.push(voter_id),
            ..self
        }
    }
}

/// Under unique option identifiers, an index whose option carries the
/// looked-up identifier is the index the lookup denotes.
pub proof fn lemma_option_index_agrees(options: Seq<OptionView>, j: int, option_id: OptionId)
    requires
        option_ids_unique(options),
        0 <= j < options.len(),
        options[j].id == option_id,
    ensures
        has_option(options, option_id),
        option_index(options, option_id) == j,
{
    assert(has_option(options, option_id));
    let i0 = option_index(options, option_id);
    if i0 != j {
        assert(false);  // two distinct options would share an identifier
    }
}

/// Every single tally is bounded by the sum of all tallies.
pub proof fn lemma_tally_sum_bounds_each(options: Seq<OptionView>, j: int)
    requires
        0 <= j < options.len(),
    ensures
        options[j].votes <= tally_sum(options),
    decreases options.len(),
{
    if j == options.len() - 1 {
        lemma_tally_sum_nonneg(options.drop_last());
    } else {
        lemma_tally_sum_bounds_each(options.drop_last(), j);
    }
}

/// Tallies are counters, so their sum is never negative.
pub proof fn lemma_tally_sum_nonneg(options: Seq<OptionView>)
    ensures
        tally_sum(options) >= 0,
    decreases options.len(),
{
    if options.len() > 0 {
        lemma_tally_sum_nonneg(options.drop_last());
    }
}

/// Replacing the option at index `j` moves the sum by exactly the
/// difference of the two tallies.
pub proof fn lemma_tally_sum_update(options: Seq<OptionView>, j: int, o: OptionView)
    requires
        0 <= j < options.len(),
    ensures
        tally_sum(options.update(j, o)) == tally_sum(options) - options[j].votes + o.votes,
    decreases options.len(),
{
    let updated = options.update(j, o);
    if j == options.len() - 1 {
        assert(updated.drop_last() =~= options.drop_last());
    } else {
        assert(updated.drop_last() =~= options.drop_last().update(j, o));
        lemma_tally_sum_update(options.drop_last(), j, o);
    }
}

/// A poll whose every tally is zero has a zero sum.
pub proof fn lemma_tally_sum_zero(options: Seq<OptionView>)
    requires
        forall|i: int| 0 <= i < options.len() ==> options[i].votes == 0,
    ensures
        tally_sum(options) == 0,
    decreases options.len(),
{
    if options.len() > 0 {
        lemma_tally_sum_zero(options.drop_last());
    }
}

/// Appending an option adds exactly its tally to the sum.
pub proof fn lemma_tally_sum_push(options: Seq<OptionView>, o: OptionView)
    ensures
        tally_sum(options.push(o)) == tally_sum(options) + o.votes,
{
    assert(options.push(o).drop_last() =~= options);
}

/// Law: a voter appears in a well-formed poll's record at most once —
/// two distinct positions never hold the same voter, so a repeat vote
/// can only be rejected.
pub proof fn lemma_voter_at_most_once(p: PollView, i: int, j: int)
    requires
        p.wf(),
        0 <= i < p.voters.len(),
        0 <= j < p.voters.len(),
        i != j,
    ensures
        p.voters[i] != p.voters[j],
{
}

/// Law: in a well-formed poll the option tallies always sum to the
/// number of recorded voters.
pub proof fn lemma_tallies_match_voters(p: PollView)
    requires
        p.wf(),
    ensures
        tally_sum(p.options) == p.voters.len(),
{
}

/// The poll after a sequence of committed votes for the option at index
/// `j`, one per entry of `voters`, in order.
pub open spec fn voted_many(p: PollView, j: int, voters: Seq<VoterId>) -> PollView
    decreases voters.len(),
{
    if voters.len() == 0 {
        p
    } else {
        voted_many(p, j, voters.drop_last()).voted(j, voters.last())
    }
}

/// Law: committing votes by N distinct voters, none of whom has voted
/// before, for one option of a well-formed poll yields exactly N
/// increments of that option's tally and exactly N new voter records —
/// no vote is lost and nothing else moves.
pub proof fn lemma_distinct_votes_all_counted(p: PollView, j: int, voters: Seq<VoterId>)
    requires
        p.wf(),
        0 <= j < p.options.len(),
        voters.no_duplicates(),
        forall|i: int| 0 <= i < voters.len() ==> !p.voters.contains(#[trigger] voters[i]),
        p.voters.len() + voters.len() <= u64::MAX,
    ensures
        voted_many(p, j, voters).wf(),
        voted_many(p, j, voters).voters == p.voters + voters,
        voted_many(p, j, voters).options.len() == p.options.len(),
        voted_many(p, j, voters).options[j].votes == p.options[j].votes + voters.len(),
        forall|k: int|
            0 <= k < p.options.len() && k != j ==> voted_many(p, j, voters).options[k]
                == p.options[k],
    decreases voters.len(),
{
    if voters.len() == 0 {
        assert(voted_many(p, j, voters).voters =~= p.voters + voters);
    } else {
        let rest = voters.drop_last();
        let v = voters.last();
        lemma_distinct_votes_all_counted(p, j, rest);
        let q = voted_many(p, j, rest);
        lemma_tally_sum_bounds_each(p.options, j);
        assert(q.options[j].votes < u64::MAX);
        assert(q.voted(j, v).voters =~= p.voters + voters);
        lemma_tally_sum_update(q.options, j, q.voted(j, v).options[j]);
        assert forall|i: int| 0 <= i < q.voters.len() implies q.voters[i] != v by {
            if i < p.voters.len() {
                assert(p.voters.contains(p.voters[i]));
            } else {
                assert(rest[i - p.voters.len()] != voters.last());
            }
        }
        assert(q.voted(j, v).voters.no_duplicates());
    }
}

impl OptionItem {
    /// An independent copy with the same identifier, label and tally.
    pub fn snapshot(&self) -> (r: OptionItem)
        ensures
            r@ == self@,
    {
        OptionItem { id: self.id, label: self.label.clone(), votes: self.votes }
    }
}

impl Poll {
    /// An independent full copy of the poll's current state, as handed
    /// to listeners and callers.
    pub fn snapshot(&self) -> (r: Poll)
        ensures
            r@ == self@,
    {
        let n_opts = self.options.len();
        let mut options: Vec<OptionItem> = Vec::new();
        let mut i: usize = 0;
        while i < n_opts
            invariant
                n_opts == self.options.len(),
                i <= n_opts,
                options@.len() == i,
                forall|k: int| 0 <= k < i ==> options@[k]@ == self.options@[k]@,
            decreases n_opts - i,
        {
            let item = self.options[i].snapshot();
            options.push(item);
            i = i + 1;
        }
        let n_voters = self.voters.len();
        let mut voters: Vec<VoterId> = Vec::new();
        let mut j: usize = 0;
        while j < n_voters
            invariant
                n_voters == self.voters.len(),
                j <= n_voters,
                voters@ == self.voters@.take(j as int),
            decreases n_voters - j,
        {
            voters.push(self.voters[j]);
            proof {
                assert(voters@ =~= self.voters@.take(j + 1 as int));
            }
            j = j + 1;
        }
        let r = Poll {
            id: self.id,
            question: self.question.clone(),
            is_open: self.is_open,
            options,
            voters,
        };
        proof {
            assert(self.voters@.take(n_voters as int) =~= self.voters@);
            assert(r@.options =~= self@.options);
            assert(r@ =~= self@);
        }
        r
    }

    /// Index of the option carrying `option_id`, if any.
    pub fn find_option(&self, option_id: OptionId) -> (r: Option<usize>)
        ensures
            match r {
                Some(j) => j < self@.options.len() && self@.options[j as int].id == option_id,
                None => !has_option(self@.options, option_id),
            },
    {
        let n = self.options.len();
        let mut j: usize = 0;
        while j < n
            invariant
                n == self.options.len(),
                j <= n,
                forall|k: int| 0 <= k < j ==> self@.options[k].id != option_id,
            decreases n - j,
        {
            if self.options[j].id == option_id {
                return Some(j);
            }
            j = j + 1;
        }
        None
    }

    /// Validate and apply one vote to this poll, all checks and both
    /// mutations (tally increment, voter record) in one step.  On any
    /// rejection the poll is left exactly as it was; on success the
    /// result carries the target option's new tally.
    pub fn cast_vote(&mut self, option_id: OptionId, voter_id: VoterId) -> (r: Result<
        u64,
        VoteError,
    >)
        requires
            old(self)@.wf(),
        ensures
            final(self)@.wf(),
            ({
                let p = old(self)@;
                if !p.is_open {
                    r == Err::<u64, VoteError>(VoteError::PollClosed) && *final(self) == *old(self)
                } else if p.voters.contains(voter_id) {
                    r == Err::<u64, VoteError>(VoteError::AlreadyVoted) && *final(self) == *old(
                        self,
                    )
                } else if !has_option(p.options, option_id) {
                    r == Err::<u64, VoteError>(VoteError::OptionNotFound) && *final(self) == *old(
                        self,
                    )
                } else {
                    let j = option_index(p.options, option_id);
                    &&& final(self)@ == p.voted(j, voter_id)
                    &&& p.options[j].votes < u64::MAX
                    &&& r == Ok::<u64, VoteError>((p.options[j].votes + 1) as u64)
                }
            }),
    {
        if !self.is_open {
            return Err(VoteError::PollClosed);
        }
        let n_voters = self.voters.len();
        let mut i: usize = 0;
        while i < n_voters
            invariant
                *self == *old(self),
                old(self)@.wf(),
                old(self).is_open,
                n_voters == self.voters.len(),
                i <= n_voters,
                forall|k: int| 0 <= k < i ==> self.voters@[k] != voter_id,
            decreases n_voters - i,
        {
            if self.voters[i] == voter_id {
                proof {
                    assert(old(self)@.voters.contains(voter_id)) by {
                        assert(old(self).voters@[i as int] == voter_id);
                    }
                }
                return Err(VoteError::AlreadyVoted);
            }
            i = i + 1;
        }
        assert(!old(self)@.voters.contains(voter_id));
        let j = match self.find_option(option_id) {
            Some(jj) => jj,
            None => {
                return Err(VoteError::OptionNotFound);
            },
        };
        let ghost p = old(self)@;
        proof {
            lemma_option_index_agrees(p.options, j as int, option_id);
        }
        self.voters.push(voter_id);
        let n_after = self.voters.len();
        proof {
            // the voter list fits in memory, so the old tally sum, and with it
            // every single tally, is strictly below u64::MAX
            assert(n_after == p.voters.len() + 1);
            lemma_tally_sum_bounds_each(p.options, j as int);
            assert(p.options[j as int].votes < u64::MAX);
        }
        let mut item = self.options.remove(j);
        let new_votes = item.votes + 1;
        item.votes = new_votes;
        self.options.insert(j, item);
        proof {
            assert(self.options@ =~= old(self).options@.update(j as int, item));
            assert(self@.options =~= p.voted(j as int, voter_id).options);
            assert(self@ =~= p.voted(j as int, voter_id));
            lemma_tally_sum_update(p.options, j as int, item@);
            assert(self@.voters.no_duplicates());
            assert(option_ids_unique(self@.options));
        }
        Ok(new_votes)
    }
}

} // verus!
