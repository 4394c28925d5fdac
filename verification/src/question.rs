//! The quiz content: a question with four options, and the single-player
//! application phases.

use vstd::prelude::*;

verus! {

/// One quiz question: prompt text, an optional code snippet, exactly four
/// option strings, and the index of the correct option.
///
/// The list of questions is supplied once at startup by the caller (its
/// loading from disk lives outside the library) and is never changed.
#[derive(Clone)]
pub struct Question {
    pub text: String,
    pub code: Option<String>,
    pub options: [String; 4],
    pub correct_answer: usize,
}

/// Whether answer slot `i` holds the correct option for question `i`.
pub open spec fn answer_correct(
    answers: Seq<Option<usize>>,
    questions: Seq<Question>,
    i: int,
) -> bool {
    0 <= i < answers.len() && i < questions.len() && answers[i] == Some(
        questions[i].correct_answer,
    )
}

/// The number of correct answer slots among the first `n`.
pub open spec fn spec_score_upto(
    answers: Seq<Option<usize>>,
    questions: Seq<Question>,
    n: int,
) -> nat
    decreases n,
{
    if n <= 0 {
        0
    } else {
        spec_score_upto(answers, questions, n - 1) + (if answer_correct(answers, questions, n - 1) {
            1nat
        } else {
            0nat
        })
    }
}

/// The score earned by `answers` against `questions`: the count of slots
/// whose stored choice equals that question's correct option.  Unset slots
/// never count.
pub open spec fn spec_score(answers: Seq<Option<usize>>, questions: Seq<Question>) -> nat {
    spec_score_upto(answers, questions, answers.len() as int)
}

/// The score over the first `n` slots never exceeds `n`.
pub proof fn lemma_score_upto_le(answers: Seq<Option<usize>>, questions: Seq<Question>, n: int)
    requires
        n >= 0,
    ensures
        spec_score_upto(answers, questions, n) <= n,
    decreases n,
{
    if n > 0 {
        lemma_score_upto_le(answers, questions, n - 1);
    }
}

/// Counts the correct answers: the executable form of [`spec_score`].
pub fn compute_score(answers: &Vec<Option<usize>>, questions: &Vec<Question>) -> (score: usize)
    ensures
        score == spec_score(answers@, questions@),
        score <= answers@.len(),
{
    let mut score: usize = 0;
    let mut i: usize = 0;
    while i < answers.len()
        invariant
            i <= answers@.len(),
            score == spec_score_upto(answers@, questions@, i as int),
            score <= i,
        decreases answers@.len() - i,
    {
        let correct = match answers[i] {
            Some(a) => i < questions.len() && a == questions[i].correct_answer,
            None => false,
        };
        if correct {
            score += 1;
        }
        i += 1;
    }
    score
}

/// Copies a four-option array, element for element.
pub fn clone_options(o: &[String; 4]) -> (r: [String; 4])
    ensures
        r == *o,
{
    let r = [o[0].clone(), o[1].clone(), o[2].clone(), o[3].clone()];
    proof {
        broadcast use vstd::array::group_array_axioms;

        assert(r@ =~= o@);
        assert(r =~= *o);
    }
    r
}

/// Copies an optional string.
pub fn clone_string_opt(o: &Option<String>) -> (r: Option<String>)
    ensures
        r == *o,
{
    match o {
        Some(s) => Some(s.clone()),
        None => None,
    }
}

/// Copies a question, field for field.
pub fn clone_question(q: &Question) -> (r: Question)
    ensures
        r == *q,
{
    Question {
        text: q.text.clone(),
        code: clone_string_opt(&q.code),
        options: clone_options(&q.options),
        correct_answer: q.correct_answer,
    }
}

/// Phase of the single-player quiz application.
#[derive(Debug, Clone, Copy, PartialEq, Eq, Structural)]
pub enum AppState {
    /// Welcome screen, before the quiz starts.
    Welcome,
    /// Answering questions.
    Quiz,
    /// Viewing the final score.
    Result,
}

} // verus!
