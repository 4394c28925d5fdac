use rust_quiz::app::App;
use rust_quiz::question::AppState;
use rust_quiz::question::Question;

fn sample_questions() -> Vec<Question> {
    vec![
        Question {
            text: "What is 1+1?".into(),
            code: None,
            options: ["2".into(), "3".into(), "4".into(), "5".into()],
            correct_answer: 0,
        },
        Question {
            text: "What keyword declares a variable in Rust?".into(),
            code: Some("let x = 5;".into()),
            options: ["let".into(), "var".into(), "mut".into(), "def".into()],
            correct_answer: 0,
        },
        Question {
            text: "Which is not a Rust type?".into(),
            code: None,
            options: ["i32".into(), "f64".into(), "string".into(), "bool".into()],
            correct_answer: 2,
        },
    ]
}

fn app_with_questions(questions: Vec<Question>) -> App {
    App::new(questions)
}

#[test]
fn test_select_next_wraps_around() {
    let mut app = app_with_questions(sample_questions());
    assert_eq!(app.selected_option, 0);
    app.select_next();
    assert_eq!(app.selected_option, 1);
    app.select_next();
    app.select_next();
    assert_eq!(app.selected_option, 3);
    app.select_next();
    assert_eq!(app.selected_option, 0); // wraps
}

#[test]
fn test_select_previous_wraps_around() {
    let mut app = app_with_questions(sample_questions());
    assert_eq!(app.selected_option, 0);
    app.select_previous();
    assert_eq!(app.selected_option, 3); // wraps
    app.select_previous();
    assert_eq!(app.selected_option, 2);
}

#[test]
fn test_submit_answer_advances_question() {
    let mut app = app_with_questions(sample_questions());
    app.state = AppState::Quiz;
    app.selected_option = 2;
    app.submit_answer();
    assert_eq!(app.current_question, 1);
    assert_eq!(app.selected_option, 0); // reset
    assert_eq!(app.answers[0], Some(2));
}

#[test]
fn test_submit_last_answer_transitions_to_result() {
    let mut app = app_with_questions(sample_questions());
    app.state = AppState::Quiz;
    app.submit_answer(); // q1
    app.submit_answer(); // q2
    app.submit_answer(); // q3
    assert_eq!(app.state, AppState::Result);
}

#[test]
fn test_calculate_score_all_correct() {
    let mut app = app_with_questions(sample_questions());
    app.answers = vec![Some(0), Some(0), Some(2)];
    assert_eq!(app.calculate_score(), 3);
}

#[test]
fn test_calculate_score_none_correct() {
    let mut app = app_with_questions(sample_questions());
    app.answers = vec![Some(1), Some(1), Some(1)];
    assert_eq!(app.calculate_score(), 0);
}

#[test]
fn test_calculate_score_with_unanswered() {
    let mut app = app_with_questions(sample_questions());
    app.answers = vec![Some(0), None, Some(2)];
    assert_eq!(app.calculate_score(), 2);
}

#[test]
fn test_restart_resets_state() {
    let mut app = app_with_questions(sample_questions());
    app.state = AppState::Result;
    app.current_question = 3;
    app.selected_option = 2;
    app.answers = vec![Some(0), Some(1), Some(2)];

    app.restart();

    assert_eq!(app.state, AppState::Welcome);
    assert_eq!(app.current_question, 0);
    assert_eq!(app.selected_option, 0);
    assert!(app.answers.iter().all(|a| a.is_none()));
}

#[test]
fn test_correct_answer_out_of_range_never_matches() {
    // Demonstrates the bug: correct_answer=10 can never be selected
    let q = Question {
        text: "Broken question".into(),
        code: None,
        options: ["a".into(), "b".into(), "c".into(), "d".into()],
        correct_answer: 10, // bug: out of range
    };
    let mut app = app_with_questions(vec![q]);
    app.answers = vec![Some(0)];
    assert_eq!(app.calculate_score(), 0); // can never score
    app.answers = vec![Some(3)];
    assert_eq!(app.calculate_score(), 0); // still can't
}

#[test]
fn test_getters_report_current_state() {
    let mut app = app_with_questions(sample_questions());
    assert_eq!(app.total_questions(), 3);
    assert_eq!(app.current_question_number(), 1);
    assert_eq!(app.selected_option(), 0);
    assert_eq!(app.result_scroll(), 0);
    assert_eq!(app.questions().len(), 3);
    assert_eq!(app.answers().len(), 3);
    app.start_quiz();
    assert_eq!(app.state, AppState::Quiz);
    assert_eq!(app.current_question().text, "What is 1+1?");
    app.select_next_option();
    assert_eq!(app.selected_option, 1);
    app.select_previous_option();
    assert_eq!(app.selected_option, 0);
}

#[test]
fn test_result_scroll_bounds() {
    let mut app = app_with_questions(sample_questions());
    app.scroll_results_up();
    assert_eq!(app.result_scroll, 0);
    app.scroll_results_down();
    app.scroll_results_down();
    app.scroll_results_down();
    app.scroll_results_down();
    assert_eq!(app.result_scroll, 2); // capped at last question
    app.scroll_results_up();
    assert_eq!(app.result_scroll, 1);
}
