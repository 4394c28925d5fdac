//! The single-player quiz state machine: option selection, answer
//! submission, scoring and restart.
//!
//! The fields are public so that a caller (or a test) can stage any state;
//! the methods keep the machine moving as the key handlers request.

use vstd::prelude::*;

use crate::question::AppState;
use crate::question::Question;
use crate::question::compute_score;
use crate::question::spec_score;

verus! {

/// The single-player quiz application.
pub struct App {
    /// Current phase.
    pub state: AppState,
    /// The loaded questions, fixed for the run.
    pub questions: Vec<Question>,
    /// Index of the question being answered.
    pub current_question: usize,
    /// Option currently highlighted, 0 to 3.
    pub selected_option: usize,
    /// One slot per question; `None` until answered.
    pub answers: Vec<Option<usize>>,
    /// Scroll position on the result screen.
    pub result_scroll: usize,
}

impl App {
    /// Creates the application over an already loaded question list.
    pub fn new(questions: Vec<Question>) -> (app: App)
        ensures
            app.state == AppState::Welcome,
            app.questions == questions,
            app.current_question == 0,
            app.selected_option == 0,
            app.answers@.len() == questions@.len(),
            forall|i: int| 0 <= i < app.answers@.len() ==> app.answers@[i] is None,
            app.result_scroll == 0,
    {
        let n = questions.len();
        App {
            state: AppState::Welcome,
            questions,
            current_question: 0,
            selected_option: 0,
            answers: vec![None; n],
            result_scroll: 0,
        }
    }

    /// The question currently being answered.
    pub fn current_question(&self) -> (q: &Question)
        requires
            self.current_question < self.questions@.len(),
        ensures
            *q == self.questions@[self.current_question as int],
    {
        &self.questions[self.current_question]
    }

    /// The 1-based number of the current question.
    pub fn current_question_number(&self) -> (n: usize)
        requires
            self.current_question < usize::MAX,
        ensures
            n == self.current_question + 1,
    {
        self.current_question + 1
    }

    /// How many questions the quiz has.
    pub fn total_questions(&self) -> (n: usize)
        ensures
            n == self.questions@.len(),
    {
        self.questions.len()
    }

    /// The option currently highlighted.
    pub fn selected_option(&self) -> (o: usize)
        ensures
            o == self.selected_option,
    {
        self.selected_option
    }

    /// The loaded questions.
    pub fn questions(&self) -> (qs: &Vec<Question>)
        ensures
            qs == &self.questions,
    {
        &self.questions
    }

    /// The answer slots.
    pub fn answers(&self) -> (a: &Vec<Option<usize>>)
        ensures
            a == &self.answers,
    {
        &self.answers
    }

    /// The scroll position on the result screen.
    pub fn result_scroll(&self) -> (s: usize)
        ensures
            s == self.result_scroll,
    {
        self.result_scroll
    }

    /// Scrolls the result view one line down, capped at the last question.
    pub fn scroll_results_down(&mut self)
        ensures
            final(self).result_scroll == vstd::math::min(
                old(self).result_scroll + 1,
                if old(self).questions@.len() == 0 {
                    0
                } else {
                    old(self).questions@.len() - 1
                },
            ),
            unchanged_but_result_scroll(*old(self), *final(self)),
    {
        let max_scroll = if self.questions.len() == 0 {
            0
        } else {
            self.questions.len() - 1
        };
        if self.result_scroll < max_scroll {
            self.result_scroll = self.result_scroll + 1;
        } else {
            self.result_scroll = max_scroll;
        }
    }

    /// Scrolls the result view one line up, stopping at the top.
    pub fn scroll_results_up(&mut self)
        ensures
            final(self).result_scroll == if old(self).result_scroll == 0 {
                0
            } else {
                old(self).result_scroll - 1
            },
            unchanged_but_result_scroll(*old(self), *final(self)),
    {
        if self.result_scroll > 0 {
            self.result_scroll = self.result_scroll - 1;
        }
    }

    /// Highlights the next option, wrapping from the last to the first.
    pub fn select_next_option(&mut self)
        ensures
            final(self).selected_option == (old(self).selected_option + 1) % 4,
            unchanged_but_selection(*old(self), *final(self)),
    {
        self.selected_option = (self.selected_option % 4 + 1) % 4;
        proof {
            lemma_mod_shift(old(self).selected_option as int, 1);
        }
    }

    /// Highlights the previous option, wrapping from the first to the last.
    pub fn select_previous_option(&mut self)
        ensures
            final(self).selected_option == (old(self).selected_option + 3) % 4,
            unchanged_but_selection(*old(self), *final(self)),
    {
        self.selected_option = (self.selected_option % 4 + 3) % 4;
        proof {
            lemma_mod_shift(old(self).selected_option as int, 3);
        }
    }

    /// Highlights the next option; same move as [`Self::select_next_option`].
    pub fn select_next(&mut self)
        ensures
            final(self).selected_option == (old(self).selected_option + 1) % 4,
            unchanged_but_selection(*old(self), *final(self)),
    {
        self.select_next_option();
    }

    /// Highlights the previous option; same move as
    /// [`Self::select_previous_option`].
    pub fn select_previous(&mut self)
        ensures
            final(self).selected_option == (old(self).selected_option + 3) % 4,
            unchanged_but_selection(*old(self), *final(self)),
    {
        self.select_previous_option();
    }

    /// Leaves the welcome screen for the quiz.
    pub fn start_quiz(&mut self)
        ensures
            final(self).state == AppState::Quiz,
            final(self).questions == old(self).questions,
            final(self).current_question == old(self).current_question,
            final(self).selected_option == old(self).selected_option,
            final(self).answers == old(self).answers,
            final(self).result_scroll == old(self).result_scroll,
    {
        self.state = AppState::Quiz;
    }

    /// Records the highlighted option for the current question and advances;
    /// after the last question the application moves to the result screen.
    pub fn submit_answer(&mut self)
        requires
            old(self).current_question < old(self).answers@.len(),
        ensures
            final(self).answers@ == old(self).answers@.update(
                old(self).current_question as int,
                Some(old(self).selected_option),
            ),
            final(self).current_question == old(self).current_question + 1,
            final(self).selected_option == 0,
            final(self).state == if old(self).current_question + 1 >= old(
                self,
            ).questions@.len() {
                AppState::Result
            } else {
                old(self).state
            },
            final(self).questions == old(self).questions,
            final(self).result_scroll == old(self).result_scroll,
    {
        let idx = self.current_question;
        let chosen = self.selected_option;
        let n = self.answers.len();
        proof {
            // idx < n bounds the increment below
            assert(idx < n);
        }
        self.answers.set(idx, Some(chosen));
        self.current_question = idx + 1;
        self.selected_option = 0;
        if self.current_question >= self.questions.len() {
            self.state = AppState::Result;
        }
    }

    /// The score so far: how many recorded answers are correct.
    pub fn calculate_score(&self) -> (score: usize)
        ensures
            score == spec_score(self.answers@, self.questions@),
            score <= self.answers@.len(),
    {
        compute_score(&self.answers, &self.questions)
    }

    /// Returns to the welcome screen with every answer cleared.
    pub fn restart(&mut self)
        ensures
            final(self).state == AppState::Welcome,
            final(self).questions == old(self).questions,
            final(self).current_question == 0,
            final(self).selected_option == 0,
            final(self).answers@.len() == old(self).questions@.len(),
            forall|i: int| 0 <= i < final(self).answers@.len() ==> final(self).answers@[i] is None,
            final(self).result_scroll == 0,
    {
        self.state = AppState::Welcome;
        self.current_question = 0;
        self.selected_option = 0;
        let n = self.questions.len();
        self.answers = vec![None; n];
        self.result_scroll = 0;
    }
}

/// The two states agree on everything but the result scroll position.
pub open spec fn unchanged_but_result_scroll(a: App, b: App) -> bool {
    b.state == a.state && b.questions == a.questions && b.current_question == a.current_question
        && b.selected_option == a.selected_option && b.answers == a.answers
}

/// The two states agree on everything but the highlighted option.
pub open spec fn unchanged_but_selection(a: App, b: App) -> bool {
    b.state == a.state && b.questions == a.questions && b.current_question == a.current_question
        && b.answers == a.answers && b.result_scroll == a.result_scroll
}

pub(crate) proof fn lemma_mod_shift(s: int, d: int)
    requires
        s >= 0,
        0 <= d < 4,
    ensures
        (s % 4 + d) % 4 == (s + d) % 4,
{
    broadcast use vstd::arithmetic::div_mod::group_div_basics;

    vstd::arithmetic::div_mod::lemma_add_mod_noop(s, d, 4);
    vstd::arithmetic::div_mod::lemma_mod_twice(s, 4);
    vstd::arithmetic::div_mod::lemma_small_mod(d as nat, 4);
}

} // verus!
