//! Note view aggregation: folds the interaction ledger into the response
//! object a note is served as, and the ordered listings built from it.

use vstd::prelude::*;

use crate::errors::ApiError;
use crate::ledger::user_vote_spec;
use crate::store::{has_note, has_save, note_at, NoteRow, SaveRow, Store};

verus! {

/// A note as served to a viewer: the note's own fields plus what the
/// interaction ledger says about it and about the viewer's relation to it.
pub struct NoteResponse {
    pub id: i32,
    pub user_id: i32,
    pub created_at: i64,
    pub title: String,
    pub content: String,
    pub public: bool,
    pub saves: i32,
    pub user_bookmark: bool,
    pub user_vote: i32,
}

/// An ordered collection of note views.
pub struct ManyNotesResponse {
    pub notes: Vec<NoteResponse>,
}

/// How many users have bookmarked this note.
pub open spec fn bookmark_count(saves: Seq<SaveRow>, note_id: i32) -> int
    decreases saves.len(),
{
    if saves.len() == 0 {
        0
    } else {
        bookmark_count(saves.drop_last(), note_id) + if saves.last().note_id == note_id {
            1int
        } else {
            0int
        }
    }
}

/// The view a given store serves for a note to a viewer: the note's fields,
/// the total bookmark count, whether the viewer has bookmarked it, and the
/// viewer's signed vote.
pub open spec fn spec_view(s: Store, note: NoteRow, viewer: i32) -> NoteResponse {
    NoteResponse {
        id: note.id,
        user_id: note.user_id,
        created_at: note.created_at,
        title: note.title,
        content: note.content,
        public: note.public,
        saves: bookmark_count(s.saves@, note.id) as i32,
        user_bookmark: has_save(s.saves@, viewer, note.id),
        user_vote: user_vote_spec(s.votes@, viewer, note.id) as i32,
    }
}

impl NoteRow {
    /// An exact copy of the row.
    pub fn duplicate(&self) -> (r: NoteRow)
        ensures
            r == *self,
    {
        NoteRow {
            id: self.id,
            user_id: self.user_id,
            created_at: self.created_at,
            title: self.title.clone(),
            content: self.content.clone(),
            public: self.public,
        }
    }
}

impl Store {
    /// Counts the bookmarks a note currently has.
    pub fn count_bookmarks(&self, note_id: i32) -> (c: i32)
        requires
            self.wf(),
        ensures
            c as int == bookmark_count(self.saves@, note_id),
    {
        let mut c: i32 = 0;
        let mut i: usize = 0;
        proof {
            assert(self.saves@.take(0) =~= Seq::<SaveRow>::empty());
        }
        while i < self.saves.len()
            invariant
                i <= self.saves@.len(),
                self.saves@.len() < i32::MAX,
                c as int == bookmark_count(self.saves@.take(i as int), note_id),
                0 <= c as int <= i as int,
            decreases self.saves@.len() - i,
        {
            proof {
                assert(self.saves@.take(i + 1).drop_last() =~= self.saves@.take(i as int));
                assert(self.saves@.take(i + 1).last() == self.saves@[i as int]);
            }
            if self.saves[i].note_id == note_id {
                c = c + 1;
            }
            i += 1;
        }
        proof {
            assert(self.saves@.take(self.saves@.len() as int) =~= self.saves@);
        }
        c
    }

    /// Builds the view of one note row for a viewer. Pure read composition:
    /// every field comes from the note itself or from the ledger's current
    /// contents.
    pub fn view_of_note(&self, note: &NoteRow, viewer: i32) -> (r: NoteResponse)
        requires
            self.wf(),
        ensures
            r == spec_view(*self, *note, viewer),
            r.user_bookmark == has_save(self.saves@, viewer, note.id),
    {
        let saves = self.count_bookmarks(note.id);
        let user_bookmark = self.find_save(viewer, note.id).is_some();
        let user_vote = match self.find_vote(viewer, note.id) {
            Some(i) => {
                proof {
                    crate::ledger::lemma_vote_index_unique(
                        self.votes@,
                        viewer,
                        note.id,
                        i as int,
                    );
                }
                if self.votes[i].is_upvote {
                    1
                } else {
                    -1
                }
            },
            None => 0,
        };
        NoteResponse {
            id: note.id,
            user_id: note.user_id,
            created_at: note.created_at,
            title: note.title.clone(),
            content: note.content.clone(),
            public: note.public,
            saves,
            user_bookmark,
            user_vote,
        }
    }

    /// Builds the view of the note with this id for a viewer; NotFound when
    /// the note does not exist. The viewer's bookmark flag is true exactly
    /// when a bookmark row for (viewer, note) exists at read time. The
    /// aggregator itself applies no visibility rule: single-note reads go
    /// through `get_note`, and the listings filter before they aggregate.
    pub fn build_view(&self, note_id: i32, viewer: i32) -> (r: Result<NoteResponse, ApiError>)
        requires
            self.wf(),
        ensures
            match r {
                Ok(v) => {
                    &&& has_note(self.notes@, note_id)
                    &&& v == spec_view(*self, note_at(self.notes@, note_id), viewer)
                    &&& v.user_bookmark == has_save(self.saves@, viewer, note_id)
                },
                Err(e) => e == ApiError::NotFound && !has_note(self.notes@, note_id),
            },
    {
        match self.find_note(note_id) {
            None => Err(ApiError::NotFound),
            Some(i) => {
                proof {
                    crate::store::lemma_note_index_unique(self.notes@, self.next_note_id, note_id, i as int);
                }
                let note = self.notes[i].duplicate();
                Ok(self.view_of_note(&note, viewer))
            },
        }
    }

    /// Serves one note to a viewer: the owner sees it always, anyone else
    /// only while it is public. A note hidden from the viewer is the same
    /// NotFound as a missing one, so a caller cannot probe for a private
    /// note's existence.
    pub fn get_note(&self, viewer: i32, note_id: i32) -> (r: Result<NoteResponse, ApiError>)
        requires
            self.wf(),
        ensures
            match r {
                Ok(v) => {
                    &&& has_note(self.notes@, note_id)
                    &&& (note_at(self.notes@, note_id).user_id == viewer || note_at(
                        self.notes@,
                        note_id,
                    ).public)
                    &&& v == spec_view(*self, note_at(self.notes@, note_id), viewer)
                    &&& v.user_bookmark == has_save(self.saves@, viewer, note_id)
                },
                Err(e) => {
                    &&& e == ApiError::NotFound
                    &&& (!has_note(self.notes@, note_id) || (note_at(
                        self.notes@,
                        note_id,
                    ).user_id != viewer && !note_at(self.notes@, note_id).public))
                },
            },
    {
        match self.find_note(note_id) {
            None => Err(ApiError::NotFound),
            Some(i) => {
                proof {
                    crate::store::lemma_note_index_unique(
                        self.notes@,
                        self.next_note_id,
                        note_id,
                        i as int,
                    );
                }
                if self.notes[i].user_id != viewer && !self.notes[i].public {
                    return Err(ApiError::NotFound);
                }
                let note = self.notes[i].duplicate();
                Ok(self.view_of_note(&note, viewer))
            },
        }
    }

    /// Builds views for the notes with these ids, preserving input order;
    /// NotFound when any id has no note.
    pub fn build_view_many(&self, note_ids: &Vec<i32>, viewer: i32) -> (r: Result<
        ManyNotesResponse,
        ApiError,
    >)
        requires
            self.wf(),
        ensures
            match r {
                Ok(m) => {
                    &&& forall|i: int|
                        0 <= i < note_ids@.len() ==> has_note(self.notes@, #[trigger] note_ids@[i])
                    &&& m.notes@ == note_ids@.map_values(
                        |id: i32| spec_view(*self, note_at(self.notes@, id), viewer),
                    )
                },
                Err(e) => e == ApiError::NotFound && (exists|i: int|
                    0 <= i < note_ids@.len() && !has_note(self.notes@, #[trigger] note_ids@[i])),
            },
    {
        let ghost f = |id: i32| spec_view(*self, note_at(self.notes@, id), viewer);
        let mut out: Vec<NoteResponse> = Vec::new();
        let mut i: usize = 0;
        proof {
            assert(out@ =~= note_ids@.take(0).map_values(f));
        }
        while i < note_ids.len()
            invariant
                self.wf(),
                i <= note_ids@.len(),
                out@ == note_ids@.take(i as int).map_values(
                    |id: i32| spec_view(*self, note_at(self.notes@, id), viewer),
                ),
                forall|j: int| 0 <= j < i ==> has_note(self.notes@, #[trigger] note_ids@[j]),
            decreases note_ids@.len() - i,
        {
            match self.build_view(note_ids[i], viewer) {
                Ok(v) => {
                    out.push(v);
                },
                Err(e) => {
                    return Err(e);
                },
            }
            proof {
                assert(note_ids@.take(i + 1).map_values(f) =~= note_ids@.take(i as int).map_values(
                    f,
                ).push(f(note_ids@[i as int])));
            }
            i += 1;
        }
        proof {
            assert(note_ids@.take(note_ids@.len() as int) =~= note_ids@);
        }
        Ok(ManyNotesResponse { notes: out })
    }
}

/// Insertion of a note into a descending-by-creation-time sequence, before
/// the first strictly older note: stable with respect to equal timestamps.
pub open spec fn insert_desc(s: Seq<NoteRow>, n: NoteRow) -> Seq<NoteRow>
    decreases s.len(),
{
    if s.len() == 0 {
        seq![n]
    } else if n.created_at > s.first().created_at {
        seq![n] + s
    } else {
        seq![s.first()] + insert_desc(s.drop_first(), n)
    }
}

/// The notes sorted by creation time, newest first, equal timestamps kept in
/// table order.
pub open spec fn sort_desc(s: Seq<NoteRow>) -> Seq<NoteRow>
    decreases s.len(),
{
    if s.len() == 0 {
        Seq::empty()
    } else {
        insert_desc(sort_desc(s.drop_last()), s.last())
    }
}

/// Creation times never increase along the sequence.
pub open spec fn sorted_desc_by_time(s: Seq<NoteRow>) -> bool {
    forall|i: int, j: int| 0 <= i < j < s.len() ==> s[i].created_at >= s[j].created_at
}

/// Filtering distributes over appending one element.
pub proof fn lemma_filter_push<A>(s: Seq<A>, pred: spec_fn(A) -> bool, x: A)
    ensures
        s.push(x).filter(pred) == if pred(x) {
            s.filter(pred).push(x)
        } else {
            s.filter(pred)
        },
{
    reveal(Seq::filter);
    assert(s.push(x).drop_last() =~= s);
    assert(s.push(x).last() == x);
}

/// Filtering the empty sequence yields the empty sequence.
pub proof fn lemma_filter_empty<A>(pred: spec_fn(A) -> bool)
    ensures
        Seq::<A>::empty().filter(pred) == Seq::<A>::empty(),
{
    reveal(Seq::filter);
}

/// Inserting before the first strictly older note is insertion at the first
/// index whose note is strictly older.
proof fn lemma_insert_desc_at(s: Seq<NoteRow>, n: NoteRow, k: int)
    requires
        0 <= k <= s.len(),
        forall|i: int| 0 <= i < k ==> n.created_at <= (#[trigger] s[i]).created_at,
        k < s.len() ==> n.created_at > s[k].created_at,
    ensures
        insert_desc(s, n) == s.insert(k, n),
    decreases s.len(),
{
    if s.len() == 0 {
        assert(insert_desc(s, n) =~= s.insert(0, n));
    } else if n.created_at > s.first().created_at {
        assert(k == 0);
        assert(seq![n] + s =~= s.insert(0, n));
    } else {
        assert(k > 0);
        lemma_insert_desc_at(s.drop_first(), n, k - 1);
        assert(seq![s.first()] + s.drop_first().insert(k - 1, n) =~= s.insert(k, n));
    }
}

/// Putting one element in front adds exactly it to the multiset.
proof fn lemma_prepend_multiset(s: Seq<NoteRow>, n: NoteRow)
    ensures
        (seq![n] + s).to_multiset() == s.to_multiset().insert(n),
    decreases s.len(),
{
    broadcast use vstd::seq_lib::group_to_multiset_ensures;

    if s.len() == 0 {
        assert(seq![n] + s =~= Seq::<NoteRow>::empty().push(n));
        assert(s =~= Seq::<NoteRow>::empty());
    } else {
        lemma_prepend_multiset(s.drop_last(), n);
        assert(seq![n] + s =~= (seq![n] + s.drop_last()).push(s.last()));
        assert(s =~= s.drop_last().push(s.last()));
        assert(s.to_multiset().insert(n) =~= s.drop_last().to_multiset().insert(n).insert(
            s.last(),
        ));
    }
}

/// Inserting into a sorted sequence keeps it sorted and adds exactly the new
/// note to the multiset of notes.
proof fn lemma_insert_desc_properties(s: Seq<NoteRow>, n: NoteRow)
    requires
        sorted_desc_by_time(s),
    ensures
        sorted_desc_by_time(insert_desc(s, n)),
        insert_desc(s, n).to_multiset() == s.to_multiset().insert(n),
        insert_desc(s, n).len() == s.len() + 1,
    decreases s.len(),
{
    broadcast use vstd::seq_lib::group_to_multiset_ensures;

    let r = insert_desc(s, n);
    if s.len() == 0 {
        assert(r =~= Seq::<NoteRow>::empty().push(n));
        assert(s =~= Seq::<NoteRow>::empty());
    } else if n.created_at > s.first().created_at {
        lemma_prepend_multiset(s, n);
        assert(sorted_desc_by_time(r)) by {
            assert forall|i: int, j: int| 0 <= i < j < r.len() implies r[i].created_at
                >= r[j].created_at by {
                if i > 0 {
                    assert(r[i] == s[i - 1] && r[j] == s[j - 1]);
                } else {
                    assert(r[j] == s[j - 1]);
                    assert(s[0].created_at >= s[j - 1].created_at);
                }
            };
        };
    } else {
        let tail = s.drop_first();
        assert(sorted_desc_by_time(tail)) by {
            assert forall|i: int, j: int| 0 <= i < j < tail.len() implies tail[i].created_at
                >= tail[j].created_at by {
                assert(tail[i] == s[i + 1] && tail[j] == s[j + 1]);
            };
        };
        lemma_insert_desc_properties(tail, n);
        let rt = insert_desc(tail, n);
        assert(r == seq![s.first()] + rt);
        // Multiset: prepend the head, then rearrange the inserts.
        lemma_prepend_multiset(rt, s.first());
        lemma_prepend_multiset(tail, s.first());
        assert(s =~= seq![s.first()] + tail);
        assert(tail.to_multiset().insert(n).insert(s.first()) =~= tail.to_multiset().insert(
            s.first(),
        ).insert(n));
        // Sortedness: the head dominates everything that was in the tail,
        // and it dominates the new note by the branch condition.
        assert(sorted_desc_by_time(r)) by {
            assert forall|i: int, j: int| 0 <= i < j < r.len() implies r[i].created_at
                >= r[j].created_at by {
                if i > 0 {
                    assert(r[i] == rt[i - 1] && r[j] == rt[j - 1]);
                } else {
                    assert(r[j] == rt[j - 1]);
                    // Every note of the inserted tail is the new note or one
                    // of the old tail's notes; the head dominates both.
                    assert(rt.contains(rt[j - 1]));
                    assert(rt.to_multiset().count(rt[j - 1]) > 0);
                    if rt[j - 1] != n {
                        assert(tail.to_multiset().count(rt[j - 1]) > 0);
                        assert(tail.contains(rt[j - 1]));
                        let w = choose|w: int| 0 <= w < tail.len() && tail[w] == rt[j - 1];
                        assert(s[w + 1] == tail[w]);
                        assert(s.first().created_at >= s[w + 1].created_at);
                    }
                }
            };
        };
    }
}

/// Law: sorting by creation time yields a sequence that is descending by
/// creation time and holds exactly the input notes.
pub proof fn lemma_sort_desc_properties(s: Seq<NoteRow>)
    ensures
        sorted_desc_by_time(sort_desc(s)),
        sort_desc(s).to_multiset() == s.to_multiset(),
        sort_desc(s).len() == s.len(),
    decreases s.len(),
{
    broadcast use vstd::seq_lib::group_to_multiset_ensures;

    if s.len() == 0 {
    } else {
        lemma_sort_desc_properties(s.drop_last());
        lemma_insert_desc_properties(sort_desc(s.drop_last()), s.last());
        assert(s =~= s.drop_last().push(s.last()));
    }
}

/// Appends a note into a vector kept descending by creation time, at the
/// position the sorting specification assigns.
fn insert_note_desc(v: &mut Vec<NoteRow>, n: NoteRow)
    ensures
        final(v)@ == insert_desc(old(v)@, n),
{
    let mut k: usize = 0;
    while k < v.len() && v[k].created_at >= n.created_at
        invariant
            k <= v@.len(),
            forall|i: int| 0 <= i < k ==> n.created_at <= (#[trigger] v@[i]).created_at,
        decreases v@.len() - k,
    {
        k += 1;
    }
    proof {
        lemma_insert_desc_at(v@, n, k as int);
    }
    v.insert(k, n);
}

/// Which notes a listing selects.
pub enum NoteFilter {
    /// Public notes, as the feed shows them.
    Feed,
    /// All notes a given user owns.
    OwnedBy(i32),
    /// The public notes a given user owns.
    PublicBy(i32),
}

/// Whether a note belongs to a listing.
pub open spec fn note_selected(f: NoteFilter, n: NoteRow) -> bool {
    match f {
        NoteFilter::Feed => n.public,
        NoteFilter::OwnedBy(u) => n.user_id == u,
        NoteFilter::PublicBy(u) => n.user_id == u && n.public,
    }
}

fn note_selected_exec(f: &NoteFilter, n: &NoteRow) -> (r: bool)
    ensures
        r == note_selected(*f, *n),
{
    match f {
        NoteFilter::Feed => n.public,
        NoteFilter::OwnedBy(u) => n.user_id == *u,
        NoteFilter::PublicBy(u) => n.user_id == *u && n.public,
    }
}

impl Store {
    /// The views of the selected notes, newest first, for a viewer.
    pub fn list_views(&self, filter: NoteFilter, viewer: i32) -> (r: ManyNotesResponse)
        requires
            self.wf(),
        ensures
            r.notes@ == sort_desc(
                self.notes@.filter(|n: NoteRow| note_selected(filter, n)),
            ).map_values(|n: NoteRow| spec_view(*self, n, viewer)),
    {
        let ghost pred = |n: NoteRow| note_selected(filter, n);
        let mut picked: Vec<NoteRow> = Vec::new();
        let mut i: usize = 0;
        proof {
            assert(self.notes@.take(0) =~= Seq::<NoteRow>::empty());
            lemma_filter_empty(pred);
        }
        while i < self.notes.len()
            invariant
                i <= self.notes@.len(),
                picked@ == sort_desc(self.notes@.take(i as int).filter(pred)),
                pred == (|n: NoteRow| note_selected(filter, n)),
            decreases self.notes@.len() - i,
        {
            let ghost f0 = self.notes@.take(i as int).filter(pred);
            proof {
                assert(self.notes@.take(i + 1) =~= self.notes@.take(i as int).push(
                    self.notes@[i as int],
                ));
                lemma_filter_push(self.notes@.take(i as int), pred, self.notes@[i as int]);
            }
            if note_selected_exec(&filter, &self.notes[i]) {
                let n = self.notes[i].duplicate();
                insert_note_desc(&mut picked, n);
                proof {
                    let f1 = self.notes@.take(i + 1).filter(pred);
                    assert(f1 == f0.push(self.notes@[i as int]));
                    assert(f1.drop_last() =~= f0);
                    assert(f1.last() == self.notes@[i as int]);
                    assert(sort_desc(f1) == insert_desc(sort_desc(f0), self.notes@[i as int]));
                }
            }
            i += 1;
        }
        proof {
            assert(self.notes@.take(self.notes@.len() as int) =~= self.notes@);
        }
        let sorted = picked;
        let ghost fview = |n: NoteRow| spec_view(*self, n, viewer);
        let mut out: Vec<NoteResponse> = Vec::new();
        let mut j: usize = 0;
        proof {
            assert(out@ =~= sorted@.take(0).map_values(fview));
        }
        while j < sorted.len()
            invariant
                self.wf(),
                j <= sorted@.len(),
                out@ == sorted@.take(j as int).map_values(fview),
                fview == (|n: NoteRow| spec_view(*self, n, viewer)),
            decreases sorted@.len() - j,
        {
            let v = self.view_of_note(&sorted[j], viewer);
            out.push(v);
            proof {
                assert(sorted@.take(j + 1).map_values(fview) =~= sorted@.take(
                    j as int,
                ).map_values(fview).push(fview(sorted@[j as int])));
            }
            j += 1;
        }
        proof {
            assert(sorted@.take(sorted@.len() as int) =~= sorted@);
        }
        ManyNotesResponse { notes: out }
    }

    /// The feed: every public note, newest first, viewed by the caller.
    pub fn get_feed(&self, viewer: i32) -> (r: ManyNotesResponse)
        requires
            self.wf(),
        ensures
            r.notes@ == sort_desc(
                self.notes@.filter(|n: NoteRow| note_selected(NoteFilter::Feed, n)),
            ).map_values(|n: NoteRow| spec_view(*self, n, viewer)),
    {
        self.list_views(NoteFilter::Feed, viewer)
    }

    /// All notes the caller owns, newest first, viewed by the caller.
    pub fn get_notes(&self, user_id: i32) -> (r: ManyNotesResponse)
        requires
            self.wf(),
        ensures
            r.notes@ == sort_desc(
                self.notes@.filter(|n: NoteRow| note_selected(NoteFilter::OwnedBy(user_id), n)),
            ).map_values(|n: NoteRow| spec_view(*self, n, user_id)),
    {
        self.list_views(NoteFilter::OwnedBy(user_id), user_id)
    }

    /// The public notes a given user owns, newest first, viewed by the caller.
    pub fn get_user_notes(&self, target: i32, viewer: i32) -> (r: ManyNotesResponse)
        requires
            self.wf(),
        ensures
            r.notes@ == sort_desc(
                self.notes@.filter(|n: NoteRow| note_selected(NoteFilter::PublicBy(target), n)),
            ).map_values(|n: NoteRow| spec_view(*self, n, viewer)),
    {
        self.list_views(NoteFilter::PublicBy(target), viewer)
    }

    /// The notes the caller has bookmarked, in table order, viewed by the
    /// caller.
    pub fn get_bookmarked_notes(&self, viewer: i32) -> (r: ManyNotesResponse)
        requires
            self.wf(),
        ensures
            r.notes@ == self.notes@.filter(
                |n: NoteRow| has_save(self.saves@, viewer, n.id),
            ).map_values(|n: NoteRow| spec_view(*self, n, viewer)),
    {
        let ghost pred = |n: NoteRow| has_save(self.saves@, viewer, n.id);
        let ghost fview = |n: NoteRow| spec_view(*self, n, viewer);
        let mut out: Vec<NoteResponse> = Vec::new();
        let mut i: usize = 0;
        proof {
            assert(self.notes@.take(0) =~= Seq::<NoteRow>::empty());
            lemma_filter_empty(pred);
            assert(Seq::<NoteRow>::empty().map_values(fview) =~= Seq::<NoteResponse>::empty());
        }
        while i < self.notes.len()
            invariant
                self.wf(),
                i <= self.notes@.len(),
                out@ == self.notes@.take(i as int).filter(pred).map_values(fview),
                pred == (|n: NoteRow| has_save(self.saves@, viewer, n.id)),
                fview == (|n: NoteRow| spec_view(*self, n, viewer)),
            decreases self.notes@.len() - i,
        {
            proof {
                assert(self.notes@.take(i + 1) =~= self.notes@.take(i as int).push(
                    self.notes@[i as int],
                ));
                lemma_filter_push(self.notes@.take(i as int), pred, self.notes@[i as int]);
            }
            let ghost f0 = self.notes@.take(i as int).filter(pred);
            if self.find_save(viewer, self.notes[i].id).is_some() {
                let v = self.view_of_note(&self.notes[i], viewer);
                out.push(v);
                proof {
                    assert(self.notes@.take(i + 1).filter(pred) == f0.push(
                        self.notes@[i as int],
                    ));
                    assert(f0.push(self.notes@[i as int]).map_values(fview) =~= f0.map_values(
                        fview,
                    ).push(fview(self.notes@[i as int])));
                }
            }
            i += 1;
        }
        proof {
            assert(self.notes@.take(self.notes@.len() as int) =~= self.notes@);
        }
        ManyNotesResponse { notes: out }
    }
}

} // verus!
