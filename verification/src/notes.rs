//! Note creation and editing, with the owner-only mutation rule.

use vstd::prelude::*;

use crate::clock::now_timestamp;
use crate::errors::ApiError;
use crate::store::{
    has_note, ids_well_formed, lemma_note_index_unique, note_at, note_ids, note_index, NoteRow,
    Store,
};
use crate::views::{spec_view, NoteResponse};

verus! {

/// A note-creation request as the client sends it.
pub struct NoteCreateRequest {
    pub title: String,
    pub content: String,
    pub public: Option<bool>,
}

/// Whether note creation succeeded.
pub struct NoteCreateResponse {
    pub success: bool,
}

/// A single-note request addressing a note by id.
pub struct NoteRequest {
    pub id: i32,
}

/// A partial edit: absent fields keep the note's current values.
pub struct EditNote {
    pub title: Option<String>,
    pub content: Option<String>,
    pub public: Option<bool>,
}

/// The note row an edit produces: present fields replace, absent fields keep.
pub open spec fn edited_note(n: NoteRow, e: EditNote) -> NoteRow {
    NoteRow {
        id: n.id,
        user_id: n.user_id,
        created_at: n.created_at,
        title: match e.title {
            Some(t) => t,
            None => n.title,
        },
        content: match e.content {
            Some(c) => c,
            None => n.content,
        },
        public: match e.public {
            Some(p) => p,
            None => n.public,
        },
    }
}

impl Store {
    /// Inserts a note owned by this user with the given creation time; an
    /// absent public flag means private.
    pub fn create_note_at(&mut self, user_id: i32, req: NoteCreateRequest, now: i64) -> (r:
        NoteCreateResponse)
        requires
            old(self).wf(),
            old(self).next_note_id < i32::MAX,
        ensures
            final(self).wf(),
            *final(self) == (Store {
                notes: final(self).notes,
                next_note_id: final(self).next_note_id,
                ..*old(self)
            }),
            r.success,
            final(self).notes@ == old(self).notes@.push(
                NoteRow {
                    id: old(self).next_note_id,
                    user_id,
                    created_at: now,
                    title: req.title,
                    content: req.content,
                    public: match req.public {
                        Some(p) => p,
                        None => false,
                    },
                },
            ),
            final(self).next_note_id as int == old(self).next_note_id + 1,
    {
        let row = NoteRow {
            id: self.next_note_id,
            user_id,
            created_at: now,
            title: req.title,
            content: req.content,
            public: match req.public {
                Some(p) => p,
                None => false,
            },
        };
        let ghost row_id = row.id;
        self.notes.push(row);
        self.next_note_id = self.next_note_id + 1;
        proof {
            assert(note_ids(self.notes@) =~= note_ids(old(self).notes@).push(row_id));
            assert(ids_well_formed(note_ids(self.notes@), self.next_note_id));
        }
        NoteCreateResponse { success: true }
    }

    /// Inserts a note owned by this user, stamped with the current wall-
    /// clock time.
    pub fn create_note(&mut self, user_id: i32, req: NoteCreateRequest) -> (r: NoteCreateResponse)
        requires
            old(self).wf(),
            old(self).next_note_id < i32::MAX,
        ensures
            final(self).wf(),
            *final(self) == (Store {
                notes: final(self).notes,
                next_note_id: final(self).next_note_id,
                ..*old(self)
            }),
            r.success,
            final(self).notes@.len() == old(self).notes@.len() + 1,
            final(self).notes@.drop_last() == old(self).notes@,
            final(self).notes@ == old(self).notes@.push(
                NoteRow {
                    id: old(self).next_note_id,
                    user_id,
                    created_at: final(self).notes@.last().created_at,
                    title: req.title,
                    content: req.content,
                    public: match req.public {
                        Some(p) => p,
                        None => false,
                    },
                },
            ),
            final(self).next_note_id as int == old(self).next_note_id + 1,
    {
        let now = now_timestamp();
        let r = self.create_note_at(user_id, req, now);
        proof {
            assert(self.notes@.drop_last() =~= old(self).notes@);
        }
        r
    }

    /// Edits a note: each present field replaces the stored one. Only the
    /// owner may edit; anyone else is turned away as Forbidden, an unknown
    /// note is NotFound, and nothing changes on failure. Returns the edited
    /// note's view for the editor.
    pub fn edit_note(&mut self, actor: i32, note_id: i32, edit: EditNote) -> (r: Result<
        NoteResponse,
        ApiError,
    >)
        requires
            old(self).wf(),
        ensures
            final(self).wf(),
            *final(self) == (Store { notes: final(self).notes, ..*old(self) }),
            match r {
                Ok(v) => {
                    &&& has_note(old(self).notes@, note_id)
                    &&& note_at(old(self).notes@, note_id).user_id == actor
                    &&& final(self).notes@ == old(self).notes@.update(
                        note_index(old(self).notes@, note_id),
                        edited_note(note_at(old(self).notes@, note_id), edit),
                    )
                    &&& v == spec_view(
                        *final(self),
                        edited_note(note_at(old(self).notes@, note_id), edit),
                        actor,
                    )
                },
                Err(e) => {
                    &&& *final(self) == *old(self)
                    &&& (e == ApiError::NotFound <==> !has_note(old(self).notes@, note_id))
                    &&& (e == ApiError::Forbidden <==> has_note(old(self).notes@, note_id)
                        && note_at(old(self).notes@, note_id).user_id != actor)
                    &&& (e == ApiError::NotFound || e == ApiError::Forbidden)
                },
            },
    {
        let i = match self.find_note(note_id) {
            None => {
                return Err(ApiError::NotFound);
            },
            Some(i) => i,
        };
        proof {
            lemma_note_index_unique(self.notes@, self.next_note_id, note_id, i as int);
        }
        if self.notes[i].user_id != actor {
            return Err(ApiError::Forbidden);
        }
        let row = self.notes.remove(i);
        let updated = NoteRow {
            id: row.id,
            user_id: row.user_id,
            created_at: row.created_at,
            title: match edit.title {
                Some(t) => t,
                None => row.title,
            },
            content: match edit.content {
                Some(c) => c,
                None => row.content,
            },
            public: match edit.public {
                Some(p) => p,
                None => row.public,
            },
        };
        self.notes.insert(i, updated);
        proof {
            assert(self.notes@ =~= old(self).notes@.update(
                note_index(old(self).notes@, note_id),
                edited_note(note_at(old(self).notes@, note_id), edit),
            ));
            assert(note_ids(self.notes@) =~= note_ids(old(self).notes@));
        }
        let note = self.notes[i].duplicate();
        Ok(self.view_of_note(&note, actor))
    }
}

} // verus!
