use rust_quiz::client::ClientApp;
use rust_quiz::client::ClientState;
use rust_quiz::protocol::AnswerResult;
use rust_quiz::protocol::LeaderboardEntry;
use rust_quiz::protocol::ServerMessage;

fn options() -> [String; 4] {
    ["a".into(), "b".into(), "c".into(), "d".into()]
}

#[test]
fn new_app_starts_connecting() {
    let app = ClientApp::new("localhost".to_string(), 8712);
    assert!(matches!(app.state, ClientState::Connecting));
    assert!(!app.should_quit);
    assert_eq!(app.server_addr(), "localhost:8712");
}

#[test]
fn connection_ack_opens_name_entry() {
    let mut app = ClientApp::new("h".to_string(), 1);
    app.apply_server_message(ServerMessage::ConnectionAck);
    match &app.state {
        ClientState::NameEntry { input, error } => {
            assert_eq!(input, "");
            assert!(error.is_none());
        }
        other => panic!("expected name entry, got {:?}", other),
    }
}

#[test]
fn name_input_edits_and_caps_at_sixteen() {
    let mut app = ClientApp::new("h".to_string(), 1);
    app.enter_name_entry();
    for c in "abcdefghijklmnopqrst".chars() {
        app.name_input_push(c);
    }
    assert_eq!(app.name_input(), "abcdefghijklmnop"); // 16 characters
    app.name_input_pop();
    assert_eq!(app.name_input(), "abcdefghijklmno");
    app.set_name_error("taken".to_string());
    match &app.state {
        ClientState::NameEntry { error, .. } => assert_eq!(error.as_deref(), Some("taken")),
        other => panic!("expected name entry, got {:?}", other),
    }
    app.clear_name_error();
    match &app.state {
        ClientState::NameEntry { error, .. } => assert!(error.is_none()),
        other => panic!("expected name entry, got {:?}", other),
    }
}

#[test]
fn rejected_join_shows_the_reason() {
    let mut app = ClientApp::new("h".to_string(), 1);
    app.enter_name_entry();
    app.apply_server_message(ServerMessage::JoinRejected {
        reason: "Username is already taken".to_string(),
    });
    match &app.state {
        ClientState::NameEntry { error, .. } => {
            assert_eq!(error.as_deref(), Some("Username is already taken"));
        }
        other => panic!("expected name entry, got {:?}", other),
    }
}

#[test]
fn lobby_quiz_and_question_flow() {
    let mut app = ClientApp::new("h".to_string(), 1);
    app.apply_server_message(ServerMessage::JoinAccepted { username: "Ann".to_string() });
    assert_eq!(app.state.username(), Some("Ann"));
    assert!(matches!(app.state, ClientState::Lobby { .. }));

    app.apply_server_message(ServerMessage::QuizStart { total_questions: 3 });
    match &app.state {
        ClientState::Quiz { username, total, current_question, .. } => {
            assert_eq!(username, "Ann");
            assert_eq!(*total, 3);
            assert!(current_question.is_none());
        }
        other => panic!("expected quiz, got {:?}", other),
    }

    app.apply_server_message(ServerMessage::Question {
        index: 0,
        text: "one".to_string(),
        code: None,
        options: options(),
    });
    assert_eq!(app.current_question_index(), 0);
    assert_eq!(app.selected_option(), 0);
    app.select_next_option();
    app.select_next_option();
    assert_eq!(app.selected_option(), 2);
    app.select_previous_option();
    assert_eq!(app.selected_option(), 1);
    app.select_previous_option();
    app.select_previous_option();
    assert_eq!(app.selected_option(), 3); // wrapped

    // the next question resets the highlight
    app.apply_server_message(ServerMessage::Question {
        index: 1,
        text: "two".to_string(),
        code: None,
        options: options(),
    });
    assert_eq!(app.current_question_index(), 1);
    assert_eq!(app.selected_option(), 0);
}

#[test]
fn results_scroll_is_bounded() {
    let mut app = ClientApp::new("h".to_string(), 1);
    let answers: Vec<AnswerResult> = (0..2)
        .map(|i| AnswerResult {
            question_index: i,
            question_text: format!("q{}", i),
            your_answer: 0,
            correct_answer: 0,
            is_correct: true,
            options: options(),
        })
        .collect();
    let leaderboard = vec![LeaderboardEntry {
        rank: 1,
        username: "Ann".to_string(),
        score: 2,
        total: 2,
        is_you: true,
    }];
    app.apply_server_message(ServerMessage::QuizResults {
        score: 2,
        total: 2,
        answers,
        leaderboard,
    });
    assert!(app.state.is_terminal());
    app.scroll_results_down();
    app.scroll_results_down();
    app.scroll_results_down();
    match &app.state {
        ClientState::Results { scroll, .. } => assert_eq!(*scroll, 1),
        other => panic!("expected results, got {:?}", other),
    }
    app.scroll_results_up();
    app.scroll_results_up();
    match &app.state {
        ClientState::Results { scroll, .. } => assert_eq!(*scroll, 0),
        other => panic!("expected results, got {:?}", other),
    }
}

#[test]
fn terminations_disconnect_with_a_message() {
    let mut app = ClientApp::new("h".to_string(), 1);
    app.apply_server_message(ServerMessage::Kicked { reason: "Banned by host".to_string() });
    match &app.state {
        ClientState::Disconnected { message } => assert_eq!(message, "Kicked: Banned by host"),
        other => panic!("expected disconnected, got {:?}", other),
    }
    app.apply_server_message(ServerMessage::HostEndedQuiz);
    match &app.state {
        ClientState::Disconnected { message } => assert_eq!(message, "HOST ENDED QUIZ"),
        other => panic!("expected disconnected, got {:?}", other),
    }
    app.apply_server_message(ServerMessage::ServerClosing);
    match &app.state {
        ClientState::Disconnected { message } => assert_eq!(message, "Server is shutting down"),
        other => panic!("expected disconnected, got {:?}", other),
    }
    assert!(app.state.is_terminal());
}

#[test]
fn reconnect_notice_returns_to_lobby_until_the_quiz_resumes() {
    let mut app = ClientApp::new("h".to_string(), 1);
    app.apply_server_message(ServerMessage::ReconnectAccepted {
        username: "Cid".to_string(),
        current_question: 1,
    });
    assert!(matches!(app.state, ClientState::Lobby { .. }));
    // a question arriving outside the quiz state still lands on screen
    app.apply_server_message(ServerMessage::Question {
        index: 1,
        text: "two".to_string(),
        code: None,
        options: options(),
    });
    match &app.state {
        ClientState::Quiz { current_index, .. } => assert_eq!(*current_index, 1),
        other => panic!("expected quiz, got {:?}", other),
    }
}

#[test]
fn selection_moves_always_land_in_range() {
    let mut app = ClientApp::new("h".to_string(), 1);
    app.state = ClientState::Quiz {
        username: "Ann".to_string(),
        current_question: None,
        current_index: 0,
        total: 3,
        selected_option: 7, // staged out of range
    };
    app.select_next_option();
    assert_eq!(app.selected_option(), 0); // (7 + 1) % 4
    app.select_previous_option();
    assert_eq!(app.selected_option(), 3);
}
