//! The provider's JSON payload: a mathematical model of parsed JSON, trusted
//! bindings to serde_json, and the verified decoder for the quiz shape.

use vstd::prelude::*;

use crate::errors::ApiError;

verus! {

/// The shape of a parsed JSON document, as far as the quiz decoder reads it.
/// A number is modelled by its value when it is an integer that fits `i64`,
/// and as `Num(None)` otherwise.
pub enum JsonData {
    Null,
    Bool(bool),
    Num(Option<i64>),
    Str(Seq<char>),
    Arr(Seq<JsonData>),
    Obj(Map<Seq<char>, JsonData>),
}

/// What serde_json's parser yields for a text: nothing when the text is not
/// a JSON document, else the parsed document. A pure function of the text.
pub uninterp spec fn json_of(s: Seq<char>) -> Option<JsonData>;

#[verifier::external_type_specification]
#[verifier::external_body]
pub struct ExValue(serde_json::Value);

/// The document a parsed serde_json value holds.
pub uninterp spec fn json_model(v: serde_json::Value) -> JsonData;

/// Relies on serde_json's `from_str::<Value>`: parses the text as one JSON
/// document; a parse error reports malformed JSON.
#[verifier::external_body]
fn json_parse(s: &str) -> (r: Option<serde_json::Value>)
    ensures
        r is Some <==> json_of(s@) is Some,
        r is Some ==> json_model(r.unwrap()) == json_of(s@).unwrap(),
{
    serde_json::from_str::<serde_json::Value>(s).ok()
}

/// Relies on serde_json's `Value::get` with a string key: the named field of
/// an object; nothing on other values or absent keys.
#[verifier::external_body]
fn json_get<'a>(v: &'a serde_json::Value, key: &str) -> (r: Option<&'a serde_json::Value>)
    ensures
        match json_model(*v) {
            JsonData::Obj(m) => {
                &&& (r is Some <==> m.dom().contains(key@))
                &&& (r is Some ==> json_model(*r.unwrap()) == m[key@])
            },
            _ => r is None,
        },
{
    v.get(key)
}

/// Relies on serde_json's `Value::as_array`: the elements of an array value.
#[verifier::external_body]
fn json_as_array<'a>(v: &'a serde_json::Value) -> (r: Option<&'a Vec<serde_json::Value>>)
    ensures
        match json_model(*v) {
            JsonData::Arr(a) => {
                &&& r is Some
                &&& r.unwrap()@.len() == a.len()
                &&& forall|i: int|
                    0 <= i < a.len() ==> json_model(#[trigger] r.unwrap()@[i]) == a[i]
            },
            _ => r is None,
        },
{
    v.as_array()
}

/// Relies on serde_json's `Value::as_str`: the characters of a string value.
#[verifier::external_body]
fn json_as_str<'a>(v: &'a serde_json::Value) -> (r: Option<&'a str>)
    ensures
        match json_model(*v) {
            JsonData::Str(s) => r is Some && r.unwrap()@ == s,
            _ => r is None,
        },
{
    v.as_str()
}

/// Relies on serde_json's `Value::as_i64`: the value of an integral number
/// representable as `i64`.
#[verifier::external_body]
fn json_as_i64(v: &serde_json::Value) -> (r: Option<i64>)
    ensures
        match json_model(*v) {
            JsonData::Num(n) => r == n,
            _ => r is None,
        },
{
    v.as_i64()
}

/// A decoded multiple-choice question, mathematically.
pub struct QuestionModel {
    pub title: Seq<char>,
    pub answers: Seq<Seq<char>>,
    pub correct: i64,
}

/// A decoded multiple-choice question: four answer options and the
/// zero-based index of the correct one.
pub struct Question {
    pub title: String,
    pub answers: Vec<String>,
    pub correct: i32,
}

/// The mathematical content of a question value.
pub open spec fn question_model(q: Question) -> QuestionModel {
    QuestionModel { title: q.title@, answers: q.answers.deep_view(), correct: q.correct as i64 }
}

/// The answer strings of an answers array, when every element is a string.
pub open spec fn answers_of_json(a: Seq<JsonData>) -> Option<Seq<Seq<char>>>
    decreases a.len(),
{
    if a.len() == 0 {
        Some(Seq::empty())
    } else {
        match (answers_of_json(a.drop_last()), a.last()) {
            (Some(rest), JsonData::Str(s)) => Some(rest.push(s)),
            _ => None,
        }
    }
}

/// The question a well-shaped question object holds: a string title, an
/// array of exactly four answer strings, and a correct index within them.
pub open spec fn question_of_json(j: JsonData) -> Option<QuestionModel> {
    match j {
        JsonData::Obj(m) => {
            if m.dom().contains("title"@) && m.dom().contains("answers"@) && m.dom().contains(
                "correct"@,
            ) {
                match (m["title"@], m["answers"@], m["correct"@]) {
                    (JsonData::Str(t), JsonData::Arr(a), JsonData::Num(c_opt)) => {
                        match (answers_of_json(a), c_opt) {
                            (Some(ans), Some(c)) => {
                                if ans.len() == 4 && 0 <= c < 4 {
                                    Some(QuestionModel { title: t, answers: ans, correct: c })
                                } else {
                                    None
                                }
                            },
                            _ => None,
                        }
                    },
                    _ => None,
                }
            } else {
                None
            }
        },
        _ => None,
    }
}

/// The questions of a questions array, when every element is well-shaped.
pub open spec fn questions_of_json(a: Seq<JsonData>) -> Option<Seq<QuestionModel>>
    decreases a.len(),
{
    if a.len() == 0 {
        Some(Seq::empty())
    } else {
        match (questions_of_json(a.drop_last()), question_of_json(a.last())) {
            (Some(rest), Some(q)) => Some(rest.push(q)),
            _ => None,
        }
    }
}

/// The question set a well-shaped provider document holds: an object with a
/// "questions" array of five to ten well-shaped questions.
pub open spec fn quiz_payload_questions(j: JsonData) -> Option<Seq<QuestionModel>> {
    match j {
        JsonData::Obj(m) => {
            if m.dom().contains("questions"@) {
                match m["questions"@] {
                    JsonData::Arr(a) => match questions_of_json(a) {
                        Some(qs) => if 5 <= qs.len() <= 10 {
                            Some(qs)
                        } else {
                            None
                        },
                        None => None,
                    },
                    _ => None,
                }
            } else {
                None
            }
        },
        _ => None,
    }
}

/// What a provider payload decodes to: its questions when the text is a
/// JSON document of exactly the quiz shape, nothing otherwise.
pub open spec fn decoded_quiz(s: Seq<char>) -> Option<Seq<QuestionModel>> {
    match json_of(s) {
        Some(j) => quiz_payload_questions(j),
        None => None,
    }
}

/// Decodes one question object: title, exactly four answer strings, and a
/// correct index within bounds.
#[verifier::loop_isolation(false)]
fn decode_question(v: &serde_json::Value) -> (r: Option<Question>)
    ensures
        match r {
            Some(q) => {
                &&& question_of_json(json_model(*v)) == Some(question_model(q))
                &&& q.answers@.len() == 4
                &&& 0 <= q.correct < 4
            },
            None => question_of_json(json_model(*v)) is None,
        },
{
    let title = match json_get(v, "title") {
        None => {
            return None;
        },
        Some(tv) => match json_as_str(tv) {
            None => {
                return None;
            },
            Some(t) => t.to_owned(),
        },
    };
    let answers_arr = match json_get(v, "answers") {
        None => {
            return None;
        },
        Some(av) => match json_as_array(av) {
            None => {
                return None;
            },
            Some(a) => a,
        },
    };
    let correct = match json_get(v, "correct") {
        None => {
            return None;
        },
        Some(cv) => match json_as_i64(cv) {
            None => {
                return None;
            },
            Some(c) => c,
        },
    };
    if answers_arr.len() != 4 {
        proof {
            match json_model(*v) {
                JsonData::Obj(m) => match m["answers"@] {
                    JsonData::Arr(a) => lemma_answers_of_json_len(a),
                    _ => (),
                },
                _ => (),
            }
        }
        return None;
    }
    if !(0 <= correct && correct < 4) {
        return None;
    }
    let ghost arr_model = match json_model(*v) {
        JsonData::Obj(m) => match m["answers"@] {
            JsonData::Arr(a) => a,
            _ => arbitrary(),
        },
        _ => arbitrary(),
    };
    let mut answers: Vec<String> = Vec::new();
    let mut i: usize = 0;
    proof {
        assert(arr_model.take(0) =~= Seq::<JsonData>::empty());
        assert(answers.deep_view() =~= Seq::<Seq<char>>::empty());
    }
    while i < answers_arr.len()
        invariant
            i <= answers_arr@.len(),
            answers_arr@.len() == arr_model.len(),
            forall|k: int|
                0 <= k < arr_model.len() ==> json_model(#[trigger] answers_arr@[k]) == arr_model[k],
            answers_of_json(arr_model.take(i as int)) == Some(answers.deep_view()),
            answers@.len() == i,
        decreases answers_arr@.len() - i,
    {
        let s = match json_as_str(&answers_arr[i]) {
            None => {
                proof {
                    lemma_answers_of_json_prefix_none(arr_model, i as int);
                }
                return None;
            },
            Some(s) => s,
        };
        answers.push(s.to_owned());
        proof {
            assert(arr_model.take(i + 1).drop_last() =~= arr_model.take(i as int));
            assert(arr_model.take(i + 1).last() == arr_model[i as int]);
            assert(answers.deep_view() =~= answers.deep_view().drop_last().push(
                answers.deep_view().last(),
            ));
        }
        i += 1;
    }
    proof {
        assert(arr_model.take(arr_model.len() as int) =~= arr_model);
    }
    Some(Question { title, answers, correct: correct as i32 })
}

/// A decoded answer list is as long as its array.
proof fn lemma_answers_of_json_len(a: Seq<JsonData>)
    ensures
        answers_of_json(a) is Some ==> answers_of_json(a).unwrap().len() == a.len(),
    decreases a.len(),
{
    if a.len() > 0 {
        lemma_answers_of_json_len(a.drop_last());
    }
}

/// If one element of the array is not a string, no prefix reaching it — nor
/// the whole array — decodes.
proof fn lemma_answers_of_json_prefix_none(a: Seq<JsonData>, i: int)
    requires
        0 <= i < a.len(),
        !(a[i] is Str),
    ensures
        answers_of_json(a) is None,
    decreases a.len(),
{
    if a.len() > 0 {
        if i < a.len() - 1 {
            lemma_answers_of_json_prefix_none(a.drop_last(), i);
        }
    }
}

/// If one element of the array is not a well-shaped question, the array does
/// not decode.
proof fn lemma_questions_of_json_none(a: Seq<JsonData>, i: int)
    requires
        0 <= i < a.len(),
        question_of_json(a[i]) is None,
    ensures
        questions_of_json(a) is None,
    decreases a.len(),
{
    if a.len() > 0 {
        if i < a.len() - 1 {
            lemma_questions_of_json_none(a.drop_last(), i);
        }
    }
}

/// Decodes and validates a provider payload against the quiz shape: an
/// object holding five to ten questions, each with a string title, exactly
/// four answer strings, and an in-bounds correct index. Anything else —
/// including text that is not JSON — is an UpstreamFailure: the provider is
/// outside the trust boundary and its output is never persisted unvalidated.
#[verifier::loop_isolation(false)]
pub fn decode_quiz_payload(payload: &str) -> (r: Result<Vec<Question>, ApiError>)
    ensures
        match r {
            Ok(qs) => {
                &&& decoded_quiz(payload@) == Some(qs@.map_values(|q: Question| question_model(q)))
                &&& 5 <= qs@.len() <= 10
                &&& forall|k: int|
                    0 <= k < qs@.len() ==> (#[trigger] qs@[k]).answers@.len() == 4 && 0 <= qs@[k].correct
                        < 4
            },
            Err(e) => e == ApiError::UpstreamFailure && decoded_quiz(payload@) is None,
        },
{
    let doc = match json_parse(payload) {
        None => {
            return Err(ApiError::UpstreamFailure);
        },
        Some(d) => d,
    };
    let questions_arr = match json_get(&doc, "questions") {
        None => {
            return Err(ApiError::UpstreamFailure);
        },
        Some(qv) => match json_as_array(qv) {
            None => {
                return Err(ApiError::UpstreamFailure);
            },
            Some(a) => a,
        },
    };
    if questions_arr.len() < 5 || questions_arr.len() > 10 {
        proof {
            lemma_questions_of_json_len(quiz_arr_model(json_model(doc)));
        }
        return Err(ApiError::UpstreamFailure);
    }
    let ghost arr_model = quiz_arr_model(json_model(doc));
    let mut out: Vec<Question> = Vec::new();
    let mut i: usize = 0;
    proof {
        assert(arr_model.take(0) =~= Seq::<JsonData>::empty());
        assert(out@.map_values(|q: Question| question_model(q)) =~= Seq::<QuestionModel>::empty());
    }
    while i < questions_arr.len()
        invariant
            i <= questions_arr@.len(),
            questions_arr@.len() == arr_model.len(),
            forall|k: int|
                0 <= k < arr_model.len() ==> json_model(#[trigger] questions_arr@[k])
                    == arr_model[k],
            questions_of_json(arr_model.take(i as int)) == Some(
                out@.map_values(|q: Question| question_model(q)),
            ),
            out@.len() == i,
            forall|k: int|
                0 <= k < out@.len() ==> (#[trigger] out@[k]).answers@.len() == 4 && 0
                    <= out@[k].correct < 4,
        decreases questions_arr@.len() - i,
    {
        let q = match decode_question(&questions_arr[i]) {
            None => {
                proof {
                    lemma_questions_of_json_none(arr_model, i as int);
                }
                return Err(ApiError::UpstreamFailure);
            },
            Some(q) => q,
        };
        out.push(q);
        proof {
            let f = |q: Question| question_model(q);
            assert(arr_model.take(i + 1).drop_last() =~= arr_model.take(i as int));
            assert(arr_model.take(i + 1).last() == arr_model[i as int]);
            assert(out@.map_values(f) =~= out@.drop_last().map_values(f).push(f(out@.last())));
        }
        i += 1;
    }
    proof {
        assert(arr_model.take(arr_model.len() as int) =~= arr_model);
    }
    Ok(out)
}

/// The "questions" array of a payload document, where there is one.
pub open spec fn quiz_arr_model(j: JsonData) -> Seq<JsonData> {
    match j {
        JsonData::Obj(m) => match m["questions"@] {
            JsonData::Arr(a) => a,
            _ => arbitrary(),
        },
        _ => arbitrary(),
    }
}

/// A decoded question list is as long as its array.
proof fn lemma_questions_of_json_len(a: Seq<JsonData>)
    ensures
        questions_of_json(a) is Some ==> questions_of_json(a).unwrap().len() == a.len(),
    decreases a.len(),
{
    if a.len() > 0 {
        lemma_questions_of_json_len(a.drop_last());
    }
}

} // verus!
