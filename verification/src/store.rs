//! The in-memory relational store behind the backend: one table per entity,
//! with the uniqueness rules the persistence layer is required to enforce
//! stated as a single well-formedness invariant.

use vstd::prelude::*;

verus! {

/// A registered principal. The password field holds the salted, self-
/// describing hash produced at registration, never a plaintext password.
pub struct UserRow {
    pub id: i32,
    pub username: String,
    pub email: String,
    pub password: String,
    pub created_at: i64,
    pub profile_picture: Option<Vec<u8>>,
}

/// A session token record: only the one-way digest of the token is kept.
pub struct TokenRow {
    pub id: i32,
    pub user_id: i32,
    pub token_hash: String,
    pub created_at: i64,
}

/// A user-owned note.
pub struct NoteRow {
    pub id: i32,
    pub user_id: i32,
    pub created_at: i64,
    pub title: String,
    pub content: String,
    pub public: bool,
}

/// A bookmark: presence of the (user, note) pair means "user has bookmarked
/// note". The pair is unique; the row has no identity beyond it.
pub struct SaveRow {
    pub id: i32,
    pub user_id: i32,
    pub note_id: i32,
}

/// A directional vote: at most one per (user, note) pair.
pub struct VoteRow {
    pub id: i32,
    pub user_id: i32,
    pub note_id: i32,
    pub is_upvote: bool,
}

/// A quiz, one-to-one with its note.
pub struct QuizRow {
    pub id: i32,
    pub note_id: i32,
}

/// A multiple-choice question of a quiz; `correct` indexes into `answers`.
pub struct QuestionRow {
    pub id: i32,
    pub quiz_id: i32,
    pub title: String,
    pub answers: Vec<String>,
    pub correct: i32,
}

/// An uploaded image file with optional recognized text.
pub struct FileRow {
    pub id: i32,
    pub user_id: i32,
    pub created_at: i64,
    pub filename: String,
    pub data: Vec<u8>,
    pub ocr: Option<String>,
}

/// The whole store: one growable table per entity plus, per table, the next
/// surrogate id to hand out.
pub struct Store {
    pub users: Vec<UserRow>,
    pub tokens: Vec<TokenRow>,
    pub notes: Vec<NoteRow>,
    pub saves: Vec<SaveRow>,
    pub votes: Vec<VoteRow>,
    pub quizzes: Vec<QuizRow>,
    pub questions: Vec<QuestionRow>,
    pub files: Vec<FileRow>,
    pub next_user_id: i32,
    pub next_token_id: i32,
    pub next_note_id: i32,
    pub next_save_id: i32,
    pub next_vote_id: i32,
    pub next_quiz_id: i32,
    pub next_question_id: i32,
    pub next_file_id: i32,
}

/// Surrogate ids of one table: all in `[1, next)`, pairwise distinct, and —
/// because every insertion consumes a fresh id — fewer rows than `next`.
pub open spec fn ids_well_formed(ids: Seq<i32>, next: i32) -> bool {
    &&& 1 <= next
    &&& ids.len() < next
    &&& forall|i: int| 0 <= i < ids.len() ==> 1 <= #[trigger] ids[i] < next
    &&& forall|i: int, j: int| 0 <= i < j < ids.len() ==> ids[i] != ids[j]
}

pub open spec fn user_ids(users: Seq<UserRow>) -> Seq<i32> {
    users.map_values(|r: UserRow| r.id)
}

pub open spec fn token_ids(tokens: Seq<TokenRow>) -> Seq<i32> {
    tokens.map_values(|r: TokenRow| r.id)
}

pub open spec fn note_ids(notes: Seq<NoteRow>) -> Seq<i32> {
    notes.map_values(|r: NoteRow| r.id)
}

pub open spec fn save_ids(saves: Seq<SaveRow>) -> Seq<i32> {
    saves.map_values(|r: SaveRow| r.id)
}

pub open spec fn vote_ids(votes: Seq<VoteRow>) -> Seq<i32> {
    votes.map_values(|r: VoteRow| r.id)
}

pub open spec fn quiz_ids(quizzes: Seq<QuizRow>) -> Seq<i32> {
    quizzes.map_values(|r: QuizRow| r.id)
}

pub open spec fn question_ids(questions: Seq<QuestionRow>) -> Seq<i32> {
    questions.map_values(|r: QuestionRow| r.id)
}

pub open spec fn file_ids(files: Seq<FileRow>) -> Seq<i32> {
    files.map_values(|r: FileRow| r.id)
}

/// Usernames are unique across users.
pub open spec fn usernames_unique(users: Seq<UserRow>) -> bool {
    forall|i: int, j: int|
        0 <= i < j < users.len() ==> users[i].username@ != users[j].username@
}

/// Email addresses are unique across users.
pub open spec fn emails_unique(users: Seq<UserRow>) -> bool {
    forall|i: int, j: int|
        0 <= i < j < users.len() ==> users[i].email@ != users[j].email@
}

/// Token digests are unique across session tokens.
pub open spec fn token_hashes_unique(tokens: Seq<TokenRow>) -> bool {
    forall|i: int, j: int|
        0 <= i < j < tokens.len() ==> tokens[i].token_hash@ != tokens[j].token_hash@
}

/// At most one bookmark per (user, note) pair.
pub open spec fn save_pairs_unique(saves: Seq<SaveRow>) -> bool {
    forall|i: int, j: int|
        0 <= i < j < saves.len()
            ==> !(saves[i].user_id == saves[j].user_id && saves[i].note_id == saves[j].note_id)
}

/// At most one vote per (user, note) pair, whatever its direction.
pub open spec fn vote_pairs_unique(votes: Seq<VoteRow>) -> bool {
    forall|i: int, j: int|
        0 <= i < j < votes.len()
            ==> !(votes[i].user_id == votes[j].user_id && votes[i].note_id == votes[j].note_id)
}

/// At most one quiz per note.
pub open spec fn quiz_notes_unique(quizzes: Seq<QuizRow>) -> bool {
    forall|i: int, j: int| 0 <= i < j < quizzes.len() ==> quizzes[i].note_id != quizzes[j].note_id
}

/// Every question's correct index lies within its answer list.
pub open spec fn questions_well_formed(questions: Seq<QuestionRow>) -> bool {
    forall|i: int|
        0 <= i < questions.len()
            ==> 0 <= (#[trigger] questions[i]).correct < questions[i].answers@.len()
}

impl Store {
    /// The store's invariant: fresh-id discipline on every table, and the
    /// uniqueness rules the backing schema declares.
    pub open spec fn wf(&self) -> bool {
        &&& ids_well_formed(user_ids(self.users@), self.next_user_id)
        &&& ids_well_formed(token_ids(self.tokens@), self.next_token_id)
        &&& ids_well_formed(note_ids(self.notes@), self.next_note_id)
        &&& ids_well_formed(save_ids(self.saves@), self.next_save_id)
        &&& ids_well_formed(vote_ids(self.votes@), self.next_vote_id)
        &&& ids_well_formed(quiz_ids(self.quizzes@), self.next_quiz_id)
        &&& ids_well_formed(question_ids(self.questions@), self.next_question_id)
        &&& ids_well_formed(file_ids(self.files@), self.next_file_id)
        &&& usernames_unique(self.users@)
        &&& emails_unique(self.users@)
        &&& token_hashes_unique(self.tokens@)
        &&& save_pairs_unique(self.saves@)
        &&& vote_pairs_unique(self.votes@)
        &&& quiz_notes_unique(self.quizzes@)
        &&& questions_well_formed(self.questions@)
    }

    /// An empty store, as a fresh deployment starts.
    pub fn new() -> (r: Store)
        ensures
            r.wf(),
            r.users@.len() == 0,
            r.tokens@.len() == 0,
            r.notes@.len() == 0,
            r.saves@.len() == 0,
            r.votes@.len() == 0,
            r.quizzes@.len() == 0,
            r.questions@.len() == 0,
            r.files@.len() == 0,
            r.next_user_id == 1,
            r.next_token_id == 1,
            r.next_note_id == 1,
            r.next_save_id == 1,
            r.next_vote_id == 1,
            r.next_quiz_id == 1,
            r.next_question_id == 1,
            r.next_file_id == 1,
    {
        let r = Store {
            users: Vec::new(),
            tokens: Vec::new(),
            notes: Vec::new(),
            saves: Vec::new(),
            votes: Vec::new(),
            quizzes: Vec::new(),
            questions: Vec::new(),
            files: Vec::new(),
            next_user_id: 1,
            next_token_id: 1,
            next_note_id: 1,
            next_save_id: 1,
            next_vote_id: 1,
            next_quiz_id: 1,
            next_question_id: 1,
            next_file_id: 1,
        };
        proof {
            assert(user_ids(r.users@) =~= Seq::<i32>::empty());
            assert(token_ids(r.tokens@) =~= Seq::<i32>::empty());
            assert(note_ids(r.notes@) =~= Seq::<i32>::empty());
            assert(save_ids(r.saves@) =~= Seq::<i32>::empty());
            assert(vote_ids(r.votes@) =~= Seq::<i32>::empty());
            assert(quiz_ids(r.quizzes@) =~= Seq::<i32>::empty());
            assert(question_ids(r.questions@) =~= Seq::<i32>::empty());
            assert(file_ids(r.files@) =~= Seq::<i32>::empty());
        }
        r
    }
}

/// There is a note with this id.
pub open spec fn has_note(notes: Seq<NoteRow>, id: i32) -> bool {
    exists|i: int| 0 <= i < notes.len() && (#[trigger] notes[i]).id == id
}

/// The index of the note with this id (unique under the invariant).
pub open spec fn note_index(notes: Seq<NoteRow>, id: i32) -> int {
    choose|i: int| 0 <= i < notes.len() && (#[trigger] notes[i]).id == id
}

/// The note row with this id.
pub open spec fn note_at(notes: Seq<NoteRow>, id: i32) -> NoteRow {
    notes[note_index(notes, id)]
}

/// There is a user with this id.
pub open spec fn has_user(users: Seq<UserRow>, id: i32) -> bool {
    exists|i: int| 0 <= i < users.len() && (#[trigger] users[i]).id == id
}

/// The index of the user with this id (unique under the invariant).
pub open spec fn user_index(users: Seq<UserRow>, id: i32) -> int {
    choose|i: int| 0 <= i < users.len() && (#[trigger] users[i]).id == id
}

/// The user row with this id.
pub open spec fn user_at(users: Seq<UserRow>, id: i32) -> UserRow {
    users[user_index(users, id)]
}

/// There is a user with this username.
pub open spec fn has_username(users: Seq<UserRow>, name: Seq<char>) -> bool {
    exists|i: int| 0 <= i < users.len() && (#[trigger] users[i]).username@ == name
}

/// The index of the user with this username (unique under the invariant).
pub open spec fn username_index(users: Seq<UserRow>, name: Seq<char>) -> int {
    choose|i: int| 0 <= i < users.len() && (#[trigger] users[i]).username@ == name
}

/// There is a user with this email address.
pub open spec fn has_email(users: Seq<UserRow>, email: Seq<char>) -> bool {
    exists|i: int| 0 <= i < users.len() && (#[trigger] users[i]).email@ == email
}

/// There is a token record with this digest.
pub open spec fn has_token_hash(tokens: Seq<TokenRow>, digest: Seq<char>) -> bool {
    exists|i: int| 0 <= i < tokens.len() && (#[trigger] tokens[i]).token_hash@ == digest
}

/// The index of the token record with this digest (unique under the invariant).
pub open spec fn token_hash_index(tokens: Seq<TokenRow>, digest: Seq<char>) -> int {
    choose|i: int| 0 <= i < tokens.len() && (#[trigger] tokens[i]).token_hash@ == digest
}

/// The token record with this digest.
pub open spec fn token_at(tokens: Seq<TokenRow>, digest: Seq<char>) -> TokenRow {
    tokens[token_hash_index(tokens, digest)]
}

/// There is a bookmark for this (user, note) pair.
pub open spec fn has_save(saves: Seq<SaveRow>, user_id: i32, note_id: i32) -> bool {
    exists|i: int|
        0 <= i < saves.len() && (#[trigger] saves[i]).user_id == user_id
            && saves[i].note_id == note_id
}

/// The index of the bookmark for this pair (unique under the invariant).
pub open spec fn save_index(saves: Seq<SaveRow>, user_id: i32, note_id: i32) -> int {
    choose|i: int|
        0 <= i < saves.len() && (#[trigger] saves[i]).user_id == user_id
            && saves[i].note_id == note_id
}

/// There is a vote for this (user, note) pair, in either direction.
pub open spec fn has_vote(votes: Seq<VoteRow>, user_id: i32, note_id: i32) -> bool {
    exists|i: int|
        0 <= i < votes.len() && (#[trigger] votes[i]).user_id == user_id
            && votes[i].note_id == note_id
}

/// The index of the vote for this pair (unique under the invariant).
pub open spec fn vote_index(votes: Seq<VoteRow>, user_id: i32, note_id: i32) -> int {
    choose|i: int|
        0 <= i < votes.len() && (#[trigger] votes[i]).user_id == user_id
            && votes[i].note_id == note_id
}

/// There is a quiz for this note.
pub open spec fn has_quiz(quizzes: Seq<QuizRow>, note_id: i32) -> bool {
    exists|i: int| 0 <= i < quizzes.len() && (#[trigger] quizzes[i]).note_id == note_id
}

/// The index of the quiz for this note (unique under the invariant).
pub open spec fn quiz_index(quizzes: Seq<QuizRow>, note_id: i32) -> int {
    choose|i: int| 0 <= i < quizzes.len() && (#[trigger] quizzes[i]).note_id == note_id
}

/// There is a file with this id.
pub open spec fn has_file(files: Seq<FileRow>, id: i32) -> bool {
    exists|i: int| 0 <= i < files.len() && (#[trigger] files[i]).id == id
}

/// The index of the file with this id (unique under the invariant).
pub open spec fn file_index(files: Seq<FileRow>, id: i32) -> int {
    choose|i: int| 0 <= i < files.len() && (#[trigger] files[i]).id == id
}

/// Under distinct note ids, any index holding the id is the index the
/// specification speaks of.
pub proof fn lemma_note_index_unique(notes: Seq<NoteRow>, next: i32, id: i32, i: int)
    requires
        ids_well_formed(note_ids(notes), next),
        0 <= i < notes.len(),
        notes[i].id == id,
    ensures
        note_index(notes, id) == i,
{
    assert(has_note(notes, id));
    let k = note_index(notes, id);
    assert(0 <= k < notes.len() && notes[k].id == id);
    assert(note_ids(notes)[k] == notes[k].id);
    assert(note_ids(notes)[i] == notes[i].id);
}

/// Under distinct user ids, any index holding the id is the index the
/// specification speaks of.
pub proof fn lemma_user_index_unique(users: Seq<UserRow>, next: i32, id: i32, i: int)
    requires
        ids_well_formed(user_ids(users), next),
        0 <= i < users.len(),
        users[i].id == id,
    ensures
        user_index(users, id) == i,
{
    assert(has_user(users, id));
    let k = user_index(users, id);
    assert(0 <= k < users.len() && users[k].id == id);
    assert(user_ids(users)[k] == users[k].id);
    assert(user_ids(users)[i] == users[i].id);
}

/// Under unique usernames, any index holding the name is the index the
/// specification speaks of.
pub proof fn lemma_username_index_unique(users: Seq<UserRow>, name: Seq<char>, i: int)
    requires
        usernames_unique(users),
        0 <= i < users.len(),
        users[i].username@ == name,
    ensures
        username_index(users, name) == i,
{
    assert(has_username(users, name));
    let k = username_index(users, name);
    assert(0 <= k < users.len() && users[k].username@ == name);
}

/// Under unique digests, any index holding the digest is the index the
/// specification speaks of.
pub proof fn lemma_token_hash_index_unique(tokens: Seq<TokenRow>, digest: Seq<char>, i: int)
    requires
        token_hashes_unique(tokens),
        0 <= i < tokens.len(),
        tokens[i].token_hash@ == digest,
    ensures
        token_hash_index(tokens, digest) == i,
{
    assert(has_token_hash(tokens, digest));
    let k = token_hash_index(tokens, digest);
    assert(0 <= k < tokens.len() && tokens[k].token_hash@ == digest);
}

/// Under one-quiz-per-note, any index holding the note id is the index the
/// specification speaks of.
pub proof fn lemma_quiz_index_unique(quizzes: Seq<QuizRow>, note_id: i32, i: int)
    requires
        quiz_notes_unique(quizzes),
        0 <= i < quizzes.len(),
        quizzes[i].note_id == note_id,
    ensures
        quiz_index(quizzes, note_id) == i,
{
    assert(has_quiz(quizzes, note_id));
    let k = quiz_index(quizzes, note_id);
    assert(0 <= k < quizzes.len() && quizzes[k].note_id == note_id);
}

/// Under distinct file ids, any index holding the id is the index the
/// specification speaks of.
pub proof fn lemma_file_index_unique(files: Seq<FileRow>, next: i32, id: i32, i: int)
    requires
        ids_well_formed(file_ids(files), next),
        0 <= i < files.len(),
        files[i].id == id,
    ensures
        file_index(files, id) == i,
{
    assert(has_file(files, id));
    let k = file_index(files, id);
    assert(0 <= k < files.len() && files[k].id == id);
    assert(file_ids(files)[k] == files[k].id);
    assert(file_ids(files)[i] == files[i].id);
}

/// Relies on std's `str` equality: true exactly when the two strings hold
/// the same characters.
#[verifier::external_body]
pub fn str_eq(a: &str, b: &str) -> (r: bool)
    ensures
        r == (a@ == b@),
{
    a == b
}

impl Store {
    /// Finds the table index of the note with this id, if any.
    pub fn find_note(&self, id: i32) -> (r: Option<usize>)
        ensures
            match r {
                Some(i) => i < self.notes@.len() && self.notes@[i as int].id == id,
                None => !has_note(self.notes@, id),
            },
    {
        let mut i: usize = 0;
        while i < self.notes.len()
            invariant
                i <= self.notes@.len(),
                forall|j: int| 0 <= j < i ==> (#[trigger] self.notes@[j]).id != id,
            decreases self.notes@.len() - i,
        {
            if self.notes[i].id == id {
                return Some(i);
            }
            i += 1;
        }
        None
    }

    /// Finds the table index of the user with this id, if any.
    pub fn find_user(&self, id: i32) -> (r: Option<usize>)
        ensures
            match r {
                Some(i) => i < self.users@.len() && self.users@[i as int].id == id,
                None => !has_user(self.users@, id),
            },
    {
        let mut i: usize = 0;
        while i < self.users.len()
            invariant
                i <= self.users@.len(),
                forall|j: int| 0 <= j < i ==> (#[trigger] self.users@[j]).id != id,
            decreases self.users@.len() - i,
        {
            if self.users[i].id == id {
                return Some(i);
            }
            i += 1;
        }
        None
    }

    /// Finds the table index of the user with this username, if any.
    pub fn find_user_by_username(&self, username: &str) -> (r: Option<usize>)
        ensures
            match r {
                Some(i) => i < self.users@.len() && self.users@[i as int].username@ == username@,
                None => !has_username(self.users@, username@),
            },
    {
        let mut i: usize = 0;
        while i < self.users.len()
            invariant
                i <= self.users@.len(),
                forall|j: int| 0 <= j < i ==> (#[trigger] self.users@[j]).username@ != username@,
            decreases self.users@.len() - i,
        {
            if str_eq(self.users[i].username.as_str(), username) {
                return Some(i);
            }
            i += 1;
        }
        None
    }

    /// Finds the table index of the token record with this digest, if any.
    pub fn find_token_by_hash(&self, digest: &str) -> (r: Option<usize>)
        ensures
            match r {
                Some(i) => i < self.tokens@.len() && self.tokens@[i as int].token_hash@ == digest@,
                None => !has_token_hash(self.tokens@, digest@),
            },
    {
        let mut i: usize = 0;
        while i < self.tokens.len()
            invariant
                i <= self.tokens@.len(),
                forall|j: int| 0 <= j < i ==> (#[trigger] self.tokens@[j]).token_hash@ != digest@,
            decreases self.tokens@.len() - i,
        {
            if str_eq(self.tokens[i].token_hash.as_str(), digest) {
                return Some(i);
            }
            i += 1;
        }
        None
    }

    /// Finds the table index of the bookmark for this pair, if any.
    pub fn find_save(&self, user_id: i32, note_id: i32) -> (r: Option<usize>)
        ensures
            match r {
                Some(i) => i < self.saves@.len() && self.saves@[i as int].user_id == user_id
                    && self.saves@[i as int].note_id == note_id,
                None => !has_save(self.saves@, user_id, note_id),
            },
    {
        let mut i: usize = 0;
        while i < self.saves.len()
            invariant
                i <= self.saves@.len(),
                forall|j: int|
                    0 <= j < i
                        ==> !((#[trigger] self.saves@[j]).user_id == user_id
                            && self.saves@[j].note_id == note_id),
            decreases self.saves@.len() - i,
        {
            if self.saves[i].user_id == user_id && self.saves[i].note_id == note_id {
                return Some(i);
            }
            i += 1;
        }
        None
    }

    /// Finds the table index of the vote for this pair, in either direction.
    pub fn find_vote(&self, user_id: i32, note_id: i32) -> (r: Option<usize>)
        ensures
            match r {
                Some(i) => i < self.votes@.len() && self.votes@[i as int].user_id == user_id
                    && self.votes@[i as int].note_id == note_id,
                None => !has_vote(self.votes@, user_id, note_id),
            },
    {
        let mut i: usize = 0;
        while i < self.votes.len()
            invariant
                i <= self.votes@.len(),
                forall|j: int|
                    0 <= j < i
                        ==> !((#[trigger] self.votes@[j]).user_id == user_id
                            && self.votes@[j].note_id == note_id),
            decreases self.votes@.len() - i,
        {
            if self.votes[i].user_id == user_id && self.votes[i].note_id == note_id {
                return Some(i);
            }
            i += 1;
        }
        None
    }

    /// Finds the table index of the quiz for this note, if any.
    pub fn find_quiz_by_note(&self, note_id: i32) -> (r: Option<usize>)
        ensures
            match r {
                Some(i) => i < self.quizzes@.len() && self.quizzes@[i as int].note_id == note_id,
                None => !has_quiz(self.quizzes@, note_id),
            },
    {
        let mut i: usize = 0;
        while i < self.quizzes.len()
            invariant
                i <= self.quizzes@.len(),
                forall|j: int| 0 <= j < i ==> (#[trigger] self.quizzes@[j]).note_id != note_id,
            decreases self.quizzes@.len() - i,
        {
            if self.quizzes[i].note_id == note_id {
                return Some(i);
            }
            i += 1;
        }
        None
    }

    /// Finds the table index of the file with this id, if any.
    pub fn find_file(&self, id: i32) -> (r: Option<usize>)
        ensures
            match r {
                Some(i) => i < self.files@.len() && self.files@[i as int].id == id,
                None => !has_file(self.files@, id),
            },
    {
        let mut i: usize = 0;
        while i < self.files.len()
            invariant
                i <= self.files@.len(),
                forall|j: int| 0 <= j < i ==> (#[trigger] self.files@[j]).id != id,
            decreases self.files@.len() - i,
        {
            if self.files[i].id == id {
                return Some(i);
            }
            i += 1;
        }
        None
    }
}

} // verus!
