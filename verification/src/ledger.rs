//! Interaction ledger: toggle semantics for bookmarks and votes, vote
//! scores, and the laws that the toggles obey.

use vstd::prelude::*;

use crate::errors::ApiError;
use crate::store::{
    has_note, has_save, has_vote, ids_well_formed, save_ids, save_index, save_pairs_unique,
    vote_ids, vote_index, vote_pairs_unique, SaveRow, Store, VoteRow,
};

verus! {

/// The bookmark toggle as a transition on the save table: delete the row for
/// the pair if present (reporting "removed"), else insert one with the given
/// fresh id (reporting "created").
pub open spec fn bookmark_toggle_spec(saves: Seq<SaveRow>, user_id: i32, note_id: i32, fresh: i32)
    -> (Seq<SaveRow>, bool) {
    if has_save(saves, user_id, note_id) {
        (saves.remove(save_index(saves, user_id, note_id)), false)
    } else {
        (saves.push(SaveRow { id: fresh, user_id, note_id }), true)
    }
}

/// The vote toggle as a transition on the vote table: delete any existing
/// vote for the pair — whatever its direction — reporting net effect 0, else
/// insert a vote in the requested direction, reporting +1 or -1.
pub open spec fn vote_toggle_spec(votes: Seq<VoteRow>, user_id: i32, note_id: i32, upvote: bool, fresh: i32)
    -> (Seq<VoteRow>, i32) {
    if has_vote(votes, user_id, note_id) {
        (votes.remove(vote_index(votes, user_id, note_id)), 0)
    } else {
        (
            votes.push(VoteRow { id: fresh, user_id, note_id, is_upvote: upvote }),
            if upvote { 1i32 } else { -1i32 },
        )
    }
}

/// The contribution of one vote row to a note's score.
pub open spec fn vote_weight(v: VoteRow, note_id: i32) -> int {
    if v.note_id == note_id {
        if v.is_upvote { 1 } else { -1 }
    } else {
        0
    }
}

/// A note's score: +1 per upvote, -1 per downvote, over all its vote rows.
pub open spec fn score_of(votes: Seq<VoteRow>, note_id: i32) -> int
    decreases votes.len(),
{
    if votes.len() == 0 {
        0
    } else {
        score_of(votes.drop_last(), note_id) + vote_weight(votes.last(), note_id)
    }
}

/// How many votes a note has in one direction.
pub open spec fn count_votes(votes: Seq<VoteRow>, note_id: i32, upvote: bool) -> int
    decreases votes.len(),
{
    if votes.len() == 0 {
        0
    } else {
        count_votes(votes.drop_last(), note_id, upvote)
            + if votes.last().note_id == note_id && votes.last().is_upvote == upvote { 1int } else { 0int }
    }
}

/// The signed value of the single vote this user has on this note: +1, -1,
/// or 0 when no vote exists.
pub open spec fn user_vote_spec(votes: Seq<VoteRow>, user_id: i32, note_id: i32) -> int {
    if has_vote(votes, user_id, note_id) {
        if votes[vote_index(votes, user_id, note_id)].is_upvote { 1 } else { -1 }
    } else {
        0
    }
}

/// Law: a note's score is exactly its upvote count minus its downvote count.
pub proof fn lemma_score_is_count_difference(votes: Seq<VoteRow>, note_id: i32)
    ensures
        score_of(votes, note_id) == count_votes(votes, note_id, true) - count_votes(
            votes,
            note_id,
            false,
        ),
    decreases votes.len(),
{
    if votes.len() > 0 {
        lemma_score_is_count_difference(votes.drop_last(), note_id);
    }
}

/// Removing one row lowers the score by exactly that row's weight.
pub proof fn lemma_score_remove(votes: Seq<VoteRow>, note_id: i32, k: int)
    requires
        0 <= k < votes.len(),
    ensures
        score_of(votes.remove(k), note_id) == score_of(votes, note_id) - vote_weight(
            votes[k],
            note_id,
        ),
    decreases votes.len(),
{
    if k == votes.len() - 1 {
        assert(votes.remove(k) =~= votes.drop_last());
    } else {
        assert(votes.remove(k).drop_last() =~= votes.drop_last().remove(k));
        assert(votes.remove(k).last() == votes.last());
        lemma_score_remove(votes.drop_last(), note_id, k);
    }
}

/// Under the pair-uniqueness invariant, any index holding the pair is the
/// index the specification speaks of.
pub proof fn lemma_save_index_unique(saves: Seq<SaveRow>, user_id: i32, note_id: i32, i: int)
    requires
        save_pairs_unique(saves),
        0 <= i < saves.len(),
        saves[i].user_id == user_id,
        saves[i].note_id == note_id,
    ensures
        save_index(saves, user_id, note_id) == i,
{
    assert(has_save(saves, user_id, note_id));
    let k = save_index(saves, user_id, note_id);
    assert(0 <= k < saves.len() && saves[k].user_id == user_id && saves[k].note_id == note_id);
}

/// Under the pair-uniqueness invariant, any index holding the pair is the
/// index the specification speaks of.
pub proof fn lemma_vote_index_unique(votes: Seq<VoteRow>, user_id: i32, note_id: i32, i: int)
    requires
        vote_pairs_unique(votes),
        0 <= i < votes.len(),
        votes[i].user_id == user_id,
        votes[i].note_id == note_id,
    ensures
        vote_index(votes, user_id, note_id) == i,
{
    assert(has_vote(votes, user_id, note_id));
    let k = vote_index(votes, user_id, note_id);
    assert(0 <= k < votes.len() && votes[k].user_id == user_id && votes[k].note_id == note_id);
}

impl Store {
    /// Toggles this user's bookmark on a note: removes the bookmark if one
    /// exists, else creates one; reports whether the bookmark now exists.
    /// Fails with NotFound — changing nothing — when the note does not exist.
    pub fn toggle_bookmark(&mut self, user_id: i32, note_id: i32) -> (r: Result<bool, ApiError>)
        requires
            old(self).wf(),
            old(self).next_save_id < i32::MAX,
        ensures
            final(self).wf(),
            *final(self) == (Store {
                saves: final(self).saves,
                next_save_id: final(self).next_save_id,
                ..*old(self)
            }),
            match r {
                Ok(marked) => {
                    &&& has_note(old(self).notes@, note_id)
                    &&& (final(self).saves@, marked) == bookmark_toggle_spec(
                        old(self).saves@,
                        user_id,
                        note_id,
                        old(self).next_save_id,
                    )
                    &&& final(self).next_save_id as int == if marked {
                        old(self).next_save_id + 1
                    } else {
                        old(self).next_save_id as int
                    }
                },
                Err(e) => {
                    &&& e == ApiError::NotFound
                    &&& !has_note(old(self).notes@, note_id)
                    &&& *final(self) == *old(self)
                },
            },
    {
        if self.find_note(note_id).is_none() {
            return Err(ApiError::NotFound);
        }
        match self.find_save(user_id, note_id) {
            Some(i) => {
                proof {
                    lemma_save_index_unique(self.saves@, user_id, note_id, i as int);
                }
                self.saves.remove(i);
                proof {
                    assert(save_ids(old(self).saves@.remove(i as int)) =~= save_ids(
                        old(self).saves@,
                    ).remove(i as int));
                    assert(ids_well_formed(save_ids(self.saves@), self.next_save_id));
                }
                Ok(false)
            },
            None => {
                let row = SaveRow { id: self.next_save_id, user_id, note_id };
                self.saves.push(row);
                self.next_save_id = self.next_save_id + 1;
                proof {
                    assert(save_ids(self.saves@) =~= save_ids(old(self).saves@).push(row.id));
                    assert(ids_well_formed(save_ids(self.saves@), self.next_save_id));
                }
                Ok(true)
            },
        }
    }

    /// Whether this user has bookmarked this note; NotFound when the note
    /// does not exist.
    pub fn is_bookmarked(&self, user_id: i32, note_id: i32) -> (r: Result<bool, ApiError>)
        ensures
            match r {
                Ok(marked) => has_note(self.notes@, note_id) && marked == has_save(
                    self.saves@,
                    user_id,
                    note_id,
                ),
                Err(e) => e == ApiError::NotFound && !has_note(self.notes@, note_id),
            },
    {
        if self.find_note(note_id).is_none() {
            return Err(ApiError::NotFound);
        }
        Ok(self.find_save(user_id, note_id).is_some())
    }

    /// Toggles this user's vote on a note: deletes any existing vote for the
    /// pair — whatever its direction — reporting net effect 0, else records a
    /// vote in the requested direction, reporting +1 or -1. Fails with
    /// NotFound — changing nothing — when the note does not exist.
    pub fn toggle_vote(&mut self, user_id: i32, note_id: i32, upvote: bool) -> (r: Result<
        i32,
        ApiError,
    >)
        requires
            old(self).wf(),
            old(self).next_vote_id < i32::MAX,
        ensures
            final(self).wf(),
            *final(self) == (Store {
                votes: final(self).votes,
                next_vote_id: final(self).next_vote_id,
                ..*old(self)
            }),
            match r {
                Ok(effect) => {
                    &&& has_note(old(self).notes@, note_id)
                    &&& (final(self).votes@, effect) == vote_toggle_spec(
                        old(self).votes@,
                        user_id,
                        note_id,
                        upvote,
                        old(self).next_vote_id,
                    )
                    &&& final(self).next_vote_id as int == if effect == 0 {
                        old(self).next_vote_id as int
                    } else {
                        old(self).next_vote_id + 1
                    }
                },
                Err(e) => {
                    &&& e == ApiError::NotFound
                    &&& !has_note(old(self).notes@, note_id)
                    &&& *final(self) == *old(self)
                },
            },
    {
        if self.find_note(note_id).is_none() {
            return Err(ApiError::NotFound);
        }
        match self.find_vote(user_id, note_id) {
            Some(i) => {
                proof {
                    lemma_vote_index_unique(self.votes@, user_id, note_id, i as int);
                }
                self.votes.remove(i);
                proof {
                    assert(vote_ids(old(self).votes@.remove(i as int)) =~= vote_ids(
                        old(self).votes@,
                    ).remove(i as int));
                    assert(ids_well_formed(vote_ids(self.votes@), self.next_vote_id));
                }
                Ok(0)
            },
            None => {
                let row = VoteRow { id: self.next_vote_id, user_id, note_id, is_upvote: upvote };
                self.votes.push(row);
                self.next_vote_id = self.next_vote_id + 1;
                proof {
                    assert(vote_ids(self.votes@) =~= vote_ids(old(self).votes@).push(row.id));
                    assert(ids_well_formed(vote_ids(self.votes@), self.next_vote_id));
                }
                Ok(if upvote { 1 } else { -1 })
            },
        }
    }

    /// A note's vote score: upvotes minus downvotes over all its vote rows.
    /// NotFound when the note does not exist.
    pub fn vote_score(&self, note_id: i32) -> (r: Result<i32, ApiError>)
        requires
            self.wf(),
        ensures
            match r {
                Ok(score) => has_note(self.notes@, note_id) && score as int == score_of(
                    self.votes@,
                    note_id,
                ),
                Err(e) => e == ApiError::NotFound && !has_note(self.notes@, note_id),
            },
    {
        if self.find_note(note_id).is_none() {
            return Err(ApiError::NotFound);
        }
        let mut score: i32 = 0;
        let mut i: usize = 0;
        proof {
            assert(self.votes@.take(0) =~= Seq::<VoteRow>::empty());
        }
        while i < self.votes.len()
            invariant
                i <= self.votes@.len(),
                self.votes@.len() < i32::MAX,
                score as int == score_of(self.votes@.take(i as int), note_id),
                -(i as int) <= score as int <= i as int,
            decreases self.votes@.len() - i,
        {
            let v = &self.votes[i];
            proof {
                assert(self.votes@.take(i + 1).drop_last() =~= self.votes@.take(i as int));
                assert(self.votes@.take(i + 1).last() == self.votes@[i as int]);
            }
            if v.note_id == note_id {
                if v.is_upvote {
                    score = score + 1;
                } else {
                    score = score - 1;
                }
            }
            i += 1;
        }
        proof {
            assert(self.votes@.take(self.votes@.len() as int) =~= self.votes@);
        }
        Ok(score)
    }

    /// The signed value of this user's vote on this note: +1, -1, or 0 when
    /// none exists. NotFound when the note does not exist.
    pub fn user_vote(&self, user_id: i32, note_id: i32) -> (r: Result<i32, ApiError>)
        requires
            self.wf(),
        ensures
            match r {
                Ok(value) => has_note(self.notes@, note_id) && value as int == user_vote_spec(
                    self.votes@,
                    user_id,
                    note_id,
                ),
                Err(e) => e == ApiError::NotFound && !has_note(self.notes@, note_id),
            },
    {
        if self.find_note(note_id).is_none() {
            return Err(ApiError::NotFound);
        }
        match self.find_vote(user_id, note_id) {
            Some(i) => {
                proof {
                    lemma_vote_index_unique(self.votes@, user_id, note_id, i as int);
                }
                if self.votes[i].is_upvote {
                    Ok(1)
                } else {
                    Ok(-1)
                }
            },
            None => Ok(0),
        }
    }
}

/// The body of a bookmark-toggle or bookmark-status reply.
pub struct NoteBookmarkResponse {
    pub success: bool,
    pub marked: bool,
}

/// The body of a vote-toggle or own-vote reply.
pub struct NoteUpvoteResponse {
    pub success: bool,
    pub is_upvoted: i32,
}

/// The body of a vote-score reply.
pub struct NoteVotesResponse {
    pub success: bool,
    pub votes: i32,
}

impl Store {
    /// The bookmark-toggle endpoint's work: toggles and reports whether the
    /// bookmark now exists.
    pub fn bookmark_note(&mut self, user_id: i32, note_id: i32) -> (r: Result<
        NoteBookmarkResponse,
        ApiError,
    >)
        requires
            old(self).wf(),
            old(self).next_save_id < i32::MAX,
        ensures
            final(self).wf(),
            *final(self) == (Store {
                saves: final(self).saves,
                next_save_id: final(self).next_save_id,
                ..*old(self)
            }),
            match r {
                Ok(resp) => {
                    &&& resp.success
                    &&& has_note(old(self).notes@, note_id)
                    &&& (final(self).saves@, resp.marked) == bookmark_toggle_spec(
                        old(self).saves@,
                        user_id,
                        note_id,
                        old(self).next_save_id,
                    )
                    &&& final(self).next_save_id as int == if resp.marked {
                        old(self).next_save_id + 1
                    } else {
                        old(self).next_save_id as int
                    }
                },
                Err(e) => e == ApiError::NotFound && !has_note(old(self).notes@, note_id)
                    && *final(self) == *old(self),
            },
    {
        match self.toggle_bookmark(user_id, note_id) {
            Ok(marked) => Ok(NoteBookmarkResponse { success: true, marked }),
            Err(e) => Err(e),
        }
    }

    /// The bookmark-status endpoint's work: reports whether the caller has
    /// bookmarked the note.
    pub fn is_bookmark_on_note(&self, user_id: i32, note_id: i32) -> (r: Result<
        NoteBookmarkResponse,
        ApiError,
    >)
        ensures
            match r {
                Ok(resp) => resp.success && has_note(self.notes@, note_id) && resp.marked
                    == has_save(self.saves@, user_id, note_id),
                Err(e) => e == ApiError::NotFound && !has_note(self.notes@, note_id),
            },
    {
        match self.is_bookmarked(user_id, note_id) {
            Ok(marked) => Ok(NoteBookmarkResponse { success: true, marked }),
            Err(e) => Err(e),
        }
    }

    /// The upvote endpoint's work: the vote toggle, requested upward.
    pub fn upvote_note(&mut self, user_id: i32, note_id: i32) -> (r: Result<
        NoteUpvoteResponse,
        ApiError,
    >)
        requires
            old(self).wf(),
            old(self).next_vote_id < i32::MAX,
        ensures
            final(self).wf(),
            *final(self) == (Store {
                votes: final(self).votes,
                next_vote_id: final(self).next_vote_id,
                ..*old(self)
            }),
            match r {
                Ok(resp) => {
                    &&& resp.success
                    &&& has_note(old(self).notes@, note_id)
                    &&& (final(self).votes@, resp.is_upvoted) == vote_toggle_spec(
                        old(self).votes@,
                        user_id,
                        note_id,
                        true,
                        old(self).next_vote_id,
                    )
                    &&& final(self).next_vote_id as int == if resp.is_upvoted == 0 {
                        old(self).next_vote_id as int
                    } else {
                        old(self).next_vote_id + 1
                    }
                },
                Err(e) => e == ApiError::NotFound && !has_note(old(self).notes@, note_id)
                    && *final(self) == *old(self),
            },
    {
        match self.toggle_vote(user_id, note_id, true) {
            Ok(effect) => Ok(NoteUpvoteResponse { success: true, is_upvoted: effect }),
            Err(e) => Err(e),
        }
    }

    /// The downvote endpoint's work: the vote toggle, requested downward.
    pub fn downvote_note(&mut self, user_id: i32, note_id: i32) -> (r: Result<
        NoteUpvoteResponse,
        ApiError,
    >)
        requires
            old(self).wf(),
            old(self).next_vote_id < i32::MAX,
        ensures
            final(self).wf(),
            *final(self) == (Store {
                votes: final(self).votes,
                next_vote_id: final(self).next_vote_id,
                ..*old(self)
            }),
            match r {
                Ok(resp) => {
                    &&& resp.success
                    &&& has_note(old(self).notes@, note_id)
                    &&& (final(self).votes@, resp.is_upvoted) == vote_toggle_spec(
                        old(self).votes@,
                        user_id,
                        note_id,
                        false,
                        old(self).next_vote_id,
                    )
                    &&& final(self).next_vote_id as int == if resp.is_upvoted == 0 {
                        old(self).next_vote_id as int
                    } else {
                        old(self).next_vote_id + 1
                    }
                },
                Err(e) => e == ApiError::NotFound && !has_note(old(self).notes@, note_id)
                    && *final(self) == *old(self),
            },
    {
        match self.toggle_vote(user_id, note_id, false) {
            Ok(effect) => Ok(NoteUpvoteResponse { success: true, is_upvoted: effect }),
            Err(e) => Err(e),
        }
    }

    /// The score endpoint's work: the note's total vote score.
    pub fn get_note_votes(&self, note_id: i32) -> (r: Result<NoteVotesResponse, ApiError>)
        requires
            self.wf(),
        ensures
            match r {
                Ok(resp) => resp.success && has_note(self.notes@, note_id) && resp.votes as int
                    == score_of(self.votes@, note_id),
                Err(e) => e == ApiError::NotFound && !has_note(self.notes@, note_id),
            },
    {
        match self.vote_score(note_id) {
            Ok(votes) => Ok(NoteVotesResponse { success: true, votes }),
            Err(e) => Err(e),
        }
    }

    /// The own-vote endpoint's work: the caller's signed vote on the note.
    pub fn get_note_vote(&self, user_id: i32, note_id: i32) -> (r: Result<
        NoteUpvoteResponse,
        ApiError,
    >)
        requires
            self.wf(),
        ensures
            match r {
                Ok(resp) => resp.success && has_note(self.notes@, note_id) && resp.is_upvoted as int
                    == user_vote_spec(self.votes@, user_id, note_id),
                Err(e) => e == ApiError::NotFound && !has_note(self.notes@, note_id),
            },
    {
        match self.user_vote(user_id, note_id) {
            Ok(value) => Ok(NoteUpvoteResponse { success: true, is_upvoted: value }),
            Err(e) => Err(e),
        }
    }
}

/// The set of (user, note) pairs that currently hold a bookmark.
pub open spec fn save_pairs(saves: Seq<SaveRow>) -> Set<(i32, i32)> {
    Set::new(|p: (i32, i32)| has_save(saves, p.0, p.1))
}

/// Removing a row of one pair does not disturb any other pair.
proof fn lemma_save_remove_other_pairs(saves: Seq<SaveRow>, k: int, a: i32, b: i32)
    requires
        0 <= k < saves.len(),
        !(saves[k].user_id == a && saves[k].note_id == b),
    ensures
        has_save(saves.remove(k), a, b) == has_save(saves, a, b),
{
    let after = saves.remove(k);
    if has_save(saves, a, b) {
        let i = choose|i: int|
            0 <= i < saves.len() && (#[trigger] saves[i]).user_id == a && saves[i].note_id == b;
        if i < k {
            assert(after[i] == saves[i]);
        } else {
            assert(after[i - 1] == saves[i]);
        }
        assert(has_save(after, a, b));
    }
    if has_save(after, a, b) {
        let i = choose|i: int|
            0 <= i < after.len() && (#[trigger] after[i]).user_id == a && after[i].note_id == b;
        if i < k {
            assert(saves[i] == after[i]);
        } else {
            assert(saves[i + 1] == after[i]);
        }
        assert(has_save(saves, a, b));
    }
}

/// Law: a bookmark toggle reports the new state: "created" exactly when the
/// bookmark exists after the call.
pub proof fn lemma_toggle_reports_new_state(
    saves: Seq<SaveRow>,
    user_id: i32,
    note_id: i32,
    fresh: i32,
)
    requires
        save_pairs_unique(saves),
    ensures
        ({
            let (after, marked) = bookmark_toggle_spec(saves, user_id, note_id, fresh);
            has_save(after, user_id, note_id) == marked
        }),
{
    let (after, marked) = bookmark_toggle_spec(saves, user_id, note_id, fresh);
    if has_save(saves, user_id, note_id) {
        let k = save_index(saves, user_id, note_id);
        assert(0 <= k < saves.len() && saves[k].user_id == user_id && saves[k].note_id == note_id);
        assert(!has_save(after, user_id, note_id)) by {
            if has_save(after, user_id, note_id) {
                let i = choose|i: int|
                    0 <= i < after.len() && (#[trigger] after[i]).user_id == user_id
                        && after[i].note_id == note_id;
                if i < k {
                    assert(saves[i] == after[i]);
                } else {
                    assert(saves[i + 1] == after[i]);
                }
            }
        };
    } else {
        assert(after.last().user_id == user_id && after.last().note_id == note_id);
    }
}

/// Law: toggling a bookmark alternates. Two toggles of the same pair in
/// sequence report "created" then "removed" (or the reverse), restore
/// exactly the set of bookmarked pairs, and a third call reports what the
/// first did.
pub proof fn lemma_toggle_bookmark_alternates(
    saves: Seq<SaveRow>,
    user_id: i32,
    note_id: i32,
    f1: i32,
    f2: i32,
    f3: i32,
)
    requires
        save_pairs_unique(saves),
    ensures
        ({
            let (s1, m1) = bookmark_toggle_spec(saves, user_id, note_id, f1);
            let (s2, m2) = bookmark_toggle_spec(s1, user_id, note_id, f2);
            let (s3, m3) = bookmark_toggle_spec(s2, user_id, note_id, f3);
            &&& m1 == !has_save(saves, user_id, note_id)
            &&& m2 == !m1
            &&& m3 == m1
            &&& save_pairs(s2) == save_pairs(saves)
        }),
{
    let (s1, m1) = bookmark_toggle_spec(saves, user_id, note_id, f1);
    let (s2, m2) = bookmark_toggle_spec(s1, user_id, note_id, f2);
    if has_save(saves, user_id, note_id) {
        let k = save_index(saves, user_id, note_id);
        assert(0 <= k < saves.len() && saves[k].user_id == user_id && saves[k].note_id == note_id);
        // After the removal no row of the pair remains: the invariant made k unique.
        assert(!has_save(s1, user_id, note_id)) by {
            if has_save(s1, user_id, note_id) {
                let i = choose|i: int|
                    0 <= i < s1.len() && (#[trigger] s1[i]).user_id == user_id && s1[i].note_id
                        == note_id;
                if i < k {
                    assert(saves[i] == s1[i]);
                } else {
                    assert(saves[i + 1] == s1[i]);
                }
            }
        };
        assert(s2 == s1.push(SaveRow { id: f2, user_id, note_id }));
        assert(save_pairs(s2) =~= save_pairs(saves)) by {
            assert forall|p: (i32, i32)| has_save(s2, p.0, p.1) == has_save(saves, p.0, p.1) by {
                if p.0 == user_id && p.1 == note_id {
                    assert(s2.last().user_id == user_id && s2.last().note_id == note_id);
                    assert(has_save(s2, user_id, note_id));
                } else {
                    lemma_save_remove_other_pairs(saves, k, p.0, p.1);
                    if has_save(s1, p.0, p.1) {
                        let i = choose|i: int|
                            0 <= i < s1.len() && (#[trigger] s1[i]).user_id == p.0
                                && s1[i].note_id == p.1;
                        assert(s2[i] == s1[i]);
                        assert(has_save(s2, p.0, p.1));
                    }
                    if has_save(s2, p.0, p.1) {
                        let i = choose|i: int|
                            0 <= i < s2.len() && (#[trigger] s2[i]).user_id == p.0
                                && s2[i].note_id == p.1;
                        assert(i < s1.len());
                        assert(has_save(s1, p.0, p.1));
                    }
                }
            };
        };
        // A third toggle sees the pair present again, as the first call did.
        assert(has_save(s2, user_id, note_id));
    } else {
        let row = SaveRow { id: f1, user_id, note_id };
        assert(s1 == saves.push(row));
        assert(s1.last() == row);
        assert(has_save(s1, user_id, note_id));
        // The pushed row is the only one of its pair, so the second toggle
        // removes exactly it and restores the original table.
        let k = save_index(s1, user_id, note_id);
        assert(0 <= k < s1.len() && s1[k].user_id == user_id && s1[k].note_id == note_id);
        assert(k == saves.len()) by {
            if k < saves.len() {
                assert(saves[k] == s1[k]);
                assert(has_save(saves, user_id, note_id));
            }
        };
        assert(s2 =~= saves);
        assert(save_pairs(s2) =~= save_pairs(saves));
    }
}

/// Law: one vote toggle moves a note's score by -1, 0, or +1: by the
/// requested direction when no vote existed, and by the negation of the
/// removed vote's weight otherwise (the documented non-flip behaviour).
pub proof fn lemma_toggle_vote_score(
    votes: Seq<VoteRow>,
    user_id: i32,
    note_id: i32,
    upvote: bool,
    fresh: i32,
)
    requires
        vote_pairs_unique(votes),
    ensures
        ({
            let (after, effect) = vote_toggle_spec(votes, user_id, note_id, upvote, fresh);
            &&& score_of(after, note_id) - score_of(votes, note_id) == if has_vote(
                votes,
                user_id,
                note_id,
            ) {
                -vote_weight(votes[vote_index(votes, user_id, note_id)], note_id)
            } else {
                if upvote { 1int } else { -1int }
            }
            &&& -1 <= score_of(after, note_id) - score_of(votes, note_id) <= 1
        }),
{
    let (after, effect) = vote_toggle_spec(votes, user_id, note_id, upvote, fresh);
    if has_vote(votes, user_id, note_id) {
        let k = vote_index(votes, user_id, note_id);
        assert(0 <= k < votes.len() && votes[k].user_id == user_id && votes[k].note_id == note_id);
        lemma_score_remove(votes, note_id, k);
    } else {
        let row = VoteRow { id: fresh, user_id, note_id, is_upvote: upvote };
        assert(after == votes.push(row));
        assert(after.drop_last() =~= votes);
        assert(after.last() == row);
    }
}

} // verus!
