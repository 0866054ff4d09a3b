//! The quiz generator: ownership and uniqueness checkpoints, the prompt
//! handed to the completion provider, strict validation of what comes back,
//! and persistence of the quiz with its ordered questions.

use vstd::prelude::*;
use vstd::string::StringExecFns;

use crate::errors::ApiError;
use crate::json::{decode_quiz_payload, decoded_quiz, question_model, Question, QuestionModel};
use crate::store::{
    has_note, has_quiz, ids_well_formed, lemma_note_index_unique, lemma_quiz_index_unique,
    note_at, question_ids, quiz_ids, quiz_index, QuestionRow, QuizRow, Store,
};

verus! {

/// A quiz with its ordered questions, as served to a client.
pub struct QuizResponse {
    pub id: i32,
    pub questions: Vec<Question>,
}

/// The instruction under which the completion provider is asked for a quiz.
pub const QUIZ_SYSTEM_PROMPT: &'static str = "You are a quiz generator. Given a note content, create 5-10 multiple choice questions to test understanding. Return ONLY valid JSON in this exact format: {\"questions\": [{\"title\": \"question text\", \"answers\": [\"option1\", \"option2\", \"option3\", \"option4\"], \"correct\": 0}]} where 'correct' is the zero-based index of the correct answer. Each question must have exactly 4 answer options. Do not include any explanations, markdown, or text outside the JSON.";

/// The mathematical content of a stored question row.
pub open spec fn question_row_model(qr: QuestionRow) -> QuestionModel {
    QuestionModel { title: qr.title@, answers: qr.answers.deep_view(), correct: qr.correct as i64 }
}

/// An exact copy of a string list.
fn duplicate_strings(v: &Vec<String>) -> (r: Vec<String>)
    ensures
        r@ == v@,
{
    let mut r: Vec<String> = Vec::new();
    let mut i: usize = 0;
    proof {
        assert(r@ =~= v@.take(0));
    }
    while i < v.len()
        invariant
            i <= v@.len(),
            r@ == v@.take(i as int),
        decreases v@.len() - i,
    {
        r.push(v[i].clone());
        proof {
            assert(v@.take(i + 1) =~= v@.take(i as int).push(v@[i as int]));
        }
        i += 1;
    }
    proof {
        assert(v@.take(v@.len() as int) =~= v@);
    }
    r
}

impl Store {
    /// Runs the quiz-creation checkpoints and, when they pass, hands back
    /// the two messages for the completion provider: the fixed system
    /// instruction and the user message built around the note's content.
    /// The note must exist (NotFound), belong to the caller (Forbidden),
    /// and not have a quiz yet (Conflict) — checked in that order.
    pub fn prepare_quiz_prompt(&self, actor: i32, note_id: i32) -> (r: Result<
        (String, String),
        ApiError,
    >)
        requires
            self.wf(),
        ensures
            match r {
                Ok(msgs) => {
                    &&& has_note(self.notes@, note_id)
                    &&& note_at(self.notes@, note_id).user_id == actor
                    &&& !has_quiz(self.quizzes@, note_id)
                    &&& msgs.0@ == QUIZ_SYSTEM_PROMPT@
                    &&& msgs.1@ == "Generate a quiz from this note:\n\n"@ + note_at(
                        self.notes@,
                        note_id,
                    ).content@
                },
                Err(e) => {
                    &&& (e == ApiError::NotFound <==> !has_note(self.notes@, note_id))
                    &&& (e == ApiError::Forbidden <==> has_note(self.notes@, note_id) && note_at(
                        self.notes@,
                        note_id,
                    ).user_id != actor)
                    &&& (e == ApiError::Conflict <==> has_note(self.notes@, note_id) && note_at(
                        self.notes@,
                        note_id,
                    ).user_id == actor && has_quiz(self.quizzes@, note_id))
                    &&& (e == ApiError::NotFound || e == ApiError::Forbidden || e
                        == ApiError::Conflict)
                },
            },
    {
        let i = match self.find_note(note_id) {
            None => {
                return Err(ApiError::NotFound);
            },
            Some(i) => i,
        };
        proof {
            lemma_note_index_unique(self.notes@, self.next_note_id, note_id, i as int);
        }
        if self.notes[i].user_id != actor {
            return Err(ApiError::Forbidden);
        }
        if self.find_quiz_by_note(note_id).is_some() {
            return Err(ApiError::Conflict);
        }
        let system = String::from_str(QUIZ_SYSTEM_PROMPT);
        let user = String::from_str("Generate a quiz from this note:\n\n").concat(
            self.notes[i].content.as_str(),
        );
        Ok((system, user))
    }

    /// Persists a quiz for a note out of the completion provider's reply.
    /// The checkpoints are re-checked: the note must exist (NotFound),
    /// belong to the caller (Forbidden), and not have a quiz yet (Conflict).
    /// A missing reply, or one that is not strictly the quiz shape, is an
    /// UpstreamFailure and persists nothing — never a partially validated
    /// structure. On success the quiz row and its questions are inserted,
    /// in the provider's order.
    #[verifier::loop_isolation(false)]
    pub fn create_quiz(&mut self, actor: i32, note_id: i32, payload: Option<&str>) -> (r: Result<
        QuizResponse,
        ApiError,
    >)
        requires
            old(self).wf(),
            old(self).next_quiz_id < i32::MAX,
            old(self).next_question_id <= i32::MAX - 10,
        ensures
            final(self).wf(),
            *final(self) == (Store {
                quizzes: final(self).quizzes,
                questions: final(self).questions,
                next_quiz_id: final(self).next_quiz_id,
                next_question_id: final(self).next_question_id,
                ..*old(self)
            }),
            match r {
                Ok(resp) => {
                    &&& has_note(old(self).notes@, note_id)
                    &&& note_at(old(self).notes@, note_id).user_id == actor
                    &&& !has_quiz(old(self).quizzes@, note_id)
                    &&& payload is Some
                    &&& decoded_quiz(payload.unwrap()@) == Some(
                        resp.questions@.map_values(|q: Question| question_model(q)),
                    )
                    &&& 5 <= resp.questions@.len() <= 10
                    &&& resp.id == old(self).next_quiz_id
                    &&& final(self).quizzes@ == old(self).quizzes@.push(
                        QuizRow { id: old(self).next_quiz_id, note_id },
                    )
                    &&& final(self).questions@.len() == old(self).questions@.len()
                        + resp.questions@.len()
                    &&& final(self).questions@.take(old(self).questions@.len() as int) == old(
                        self,
                    ).questions@
                    &&& forall|k: int|
                        0 <= k < resp.questions@.len() ==> {
                            let row = final(self).questions@[old(self).questions@.len() + k];
                            &&& row.quiz_id == old(self).next_quiz_id
                            &&& row.id as int == old(self).next_question_id + k
                            &&& question_row_model(row) == question_model(
                                #[trigger] resp.questions@[k],
                            )
                        }
                    &&& final(self).next_quiz_id as int == old(self).next_quiz_id + 1
                    &&& final(self).next_question_id as int == old(self).next_question_id
                        + resp.questions@.len()
                },
                Err(e) => {
                    &&& *final(self) == *old(self)
                    &&& (e == ApiError::NotFound <==> !has_note(old(self).notes@, note_id))
                    &&& (e == ApiError::Forbidden <==> has_note(old(self).notes@, note_id)
                        && note_at(old(self).notes@, note_id).user_id != actor)
                    &&& (e == ApiError::Conflict <==> has_note(old(self).notes@, note_id)
                        && note_at(old(self).notes@, note_id).user_id == actor && has_quiz(
                        old(self).quizzes@,
                        note_id,
                    ))
                    &&& (e == ApiError::UpstreamFailure <==> has_note(old(self).notes@, note_id)
                        && note_at(old(self).notes@, note_id).user_id == actor && !has_quiz(
                        old(self).quizzes@,
                        note_id,
                    ) && (payload is None || decoded_quiz(payload.unwrap()@) is None))
                    &&& (e == ApiError::NotFound || e == ApiError::Forbidden || e
                        == ApiError::Conflict || e == ApiError::UpstreamFailure)
                },
            },
    {
        let i = match self.find_note(note_id) {
            None => {
                return Err(ApiError::NotFound);
            },
            Some(i) => i,
        };
        proof {
            lemma_note_index_unique(self.notes@, self.next_note_id, note_id, i as int);
        }
        if self.notes[i].user_id != actor {
            return Err(ApiError::Forbidden);
        }
        if self.find_quiz_by_note(note_id).is_some() {
            return Err(ApiError::Conflict);
        }
        let text = match payload {
            None => {
                return Err(ApiError::UpstreamFailure);
            },
            Some(t) => t,
        };
        let questions = match decode_quiz_payload(text) {
            Err(e) => {
                return Err(e);
            },
            Ok(qs) => qs,
        };
        let quiz_id = self.next_quiz_id;
        self.quizzes.push(QuizRow { id: quiz_id, note_id });
        self.next_quiz_id = self.next_quiz_id + 1;
        proof {
            assert(quiz_ids(self.quizzes@) =~= quiz_ids(old(self).quizzes@).push(quiz_id));
            assert(ids_well_formed(quiz_ids(self.quizzes@), self.next_quiz_id));
        }
        let mut j: usize = 0;
        proof {
            assert(self.questions@.take(old(self).questions@.len() as int) =~= old(
                self,
            ).questions@);
        }
        while j < questions.len()
            invariant
                j <= questions@.len(),
                self.questions@.len() == old(self).questions@.len() + j,
                self.questions@.take(old(self).questions@.len() as int) == old(self).questions@,
                self.next_question_id as int == old(self).next_question_id + j,
                ids_well_formed(question_ids(self.questions@), self.next_question_id),
                crate::store::questions_well_formed(self.questions@),
                forall|k: int|
                    0 <= k < j ==> (#[trigger] self.questions@[old(self).questions@.len() + k]).quiz_id
                        == quiz_id,
                forall|k: int|
                    0 <= k < j ==> (#[trigger] self.questions@[old(self).questions@.len() + k]).id
                        as int == old(self).next_question_id + k,
                forall|k: int|
                    0 <= k < j ==> question_row_model(
                        #[trigger] self.questions@[old(self).questions@.len() + k],
                    ) == question_model(questions@[k]),
                *self == (Store {
                    quizzes: self.quizzes,
                    questions: self.questions,
                    next_quiz_id: self.next_quiz_id,
                    next_question_id: self.next_question_id,
                    ..*old(self)
                }),
                self.quizzes@ == old(self).quizzes@.push(QuizRow { id: quiz_id, note_id }),
                self.next_quiz_id as int == old(self).next_quiz_id + 1,
            decreases questions@.len() - j,
        {
            let q = &questions[j];
            let answers = duplicate_strings(&q.answers);
            let row = QuestionRow {
                id: self.next_question_id,
                quiz_id,
                title: q.title.clone(),
                answers,
                correct: q.correct,
            };
            let ghost grow = row;
            let ghost prev = self.questions@;
            proof {
                assert(grow.answers.deep_view() =~= questions@[j as int].answers.deep_view());
                assert(question_row_model(grow) == question_model(questions@[j as int]));
            }
            self.questions.push(row);
            self.next_question_id = self.next_question_id + 1;
            proof {
                assert(self.questions@ == prev.push(grow));
                assert(question_ids(self.questions@) =~= question_ids(prev).push(grow.id));
                assert(ids_well_formed(question_ids(self.questions@), self.next_question_id));
                assert(self.questions@.take(old(self).questions@.len() as int) =~= old(
                    self,
                ).questions@);
                assert(self.questions@[old(self).questions@.len() + j as int] == grow);
                assert(forall|k: int|
                    0 <= k < j ==> #[trigger] self.questions@[old(self).questions@.len() + k]
                        == prev[old(self).questions@.len() + k]);
            }
            j += 1;
        }
        proof {
            assert forall|k: int| 0 <= k < questions@.len() implies {
                let row = self.questions@[old(self).questions@.len() + k];
                &&& row.quiz_id == quiz_id
                &&& row.id as int == old(self).next_question_id + k
                &&& question_row_model(row) == question_model(#[trigger] questions@[k])
            } by {
                assert(self.questions@[old(self).questions@.len() + k].quiz_id == quiz_id);
            };
        }
        Ok(QuizResponse { id: quiz_id, questions })
    }

    /// The quiz of a note with its ordered questions, served to the owner or
    /// — when the note is public — to anyone. A private note's quiz, a note
    /// without a quiz, and a missing note are all the same NotFound, so a
    /// caller cannot probe for a private note's existence.
    #[verifier::loop_isolation(false)]
    pub fn get_quizes(&self, viewer: i32, note_id: i32) -> (r: Result<QuizResponse, ApiError>)
        requires
            self.wf(),
        ensures
            match r {
                Ok(resp) => {
                    &&& has_note(self.notes@, note_id)
                    &&& (note_at(self.notes@, note_id).user_id == viewer || note_at(
                        self.notes@,
                        note_id,
                    ).public)
                    &&& has_quiz(self.quizzes@, note_id)
                    &&& resp.id == self.quizzes@[quiz_index(self.quizzes@, note_id)].id
                    &&& resp.questions@.map_values(|q: Question| question_model(q))
                        == self.questions@.filter(
                        |qr: QuestionRow| qr.quiz_id == self.quizzes@[quiz_index(
                            self.quizzes@,
                            note_id,
                        )].id,
                    ).map_values(|qr: QuestionRow| question_row_model(qr))
                },
                Err(e) => {
                    &&& e == ApiError::NotFound
                    &&& (!has_note(self.notes@, note_id) || (note_at(
                        self.notes@,
                        note_id,
                    ).user_id != viewer && !note_at(self.notes@, note_id).public) || !has_quiz(
                        self.quizzes@,
                        note_id,
                    ))
                },
            },
    {
        let i = match self.find_note(note_id) {
            None => {
                return Err(ApiError::NotFound);
            },
            Some(i) => i,
        };
        proof {
            lemma_note_index_unique(self.notes@, self.next_note_id, note_id, i as int);
        }
        if self.notes[i].user_id != viewer && !self.notes[i].public {
            return Err(ApiError::NotFound);
        }
        let qi = match self.find_quiz_by_note(note_id) {
            None => {
                return Err(ApiError::NotFound);
            },
            Some(qi) => qi,
        };
        proof {
            lemma_quiz_index_unique(self.quizzes@, note_id, qi as int);
        }
        let quiz_id = self.quizzes[qi].id;
        let ghost pred = |qr: QuestionRow| qr.quiz_id == self.quizzes@[quiz_index(
            self.quizzes@,
            note_id,
        )].id;
        let ghost fmodel = |qr: QuestionRow| question_row_model(qr);
        let ghost fq = |q: Question| question_model(q);
        let mut out: Vec<Question> = Vec::new();
        let mut k: usize = 0;
        proof {
            assert(self.questions@.take(0) =~= Seq::<QuestionRow>::empty());
            crate::views::lemma_filter_empty(pred);
            assert(Seq::<QuestionRow>::empty().map_values(fmodel) =~= Seq::<
                QuestionModel,
            >::empty());
            assert(out@.map_values(fq) =~= Seq::<QuestionModel>::empty());
        }
        while k < self.questions.len()
            invariant
                k <= self.questions@.len(),
                out@.map_values(fq) == self.questions@.take(k as int).filter(pred).map_values(
                    fmodel,
                ),
            decreases self.questions@.len() - k,
        {
            proof {
                assert(self.questions@.take(k + 1) =~= self.questions@.take(k as int).push(
                    self.questions@[k as int],
                ));
                crate::views::lemma_filter_push(
                    self.questions@.take(k as int),
                    pred,
                    self.questions@[k as int],
                );
            }
            let ghost f0 = self.questions@.take(k as int).filter(pred);
            if self.questions[k].quiz_id == quiz_id {
                let row = &self.questions[k];
                let q = Question {
                    title: row.title.clone(),
                    answers: duplicate_strings(&row.answers),
                    correct: row.correct,
                };
                proof {
                    assert(q.answers.deep_view() =~= row.answers.deep_view());
                    assert(question_model(q) == question_row_model(self.questions@[k as int]));
                }
                out.push(q);
                proof {
                    assert(f0.push(self.questions@[k as int]).map_values(fmodel)
                        =~= f0.map_values(fmodel).push(fmodel(self.questions@[k as int])));
                    assert(out@.map_values(fq) =~= out@.drop_last().map_values(fq).push(
                        fq(out@.last()),
                    ));
                }
            }
            k += 1;
        }
        proof {
            assert(self.questions@.take(self.questions@.len() as int) =~= self.questions@);
        }
        Ok(QuizResponse { id: quiz_id, questions: out })
    }
}

} // verus!
