use rust_quiz::commands::execute_command;
use rust_quiz::commands::host_input_char;
use rust_quiz::commands::run_command_line;
use rust_quiz::commands::CommandResult;
use rust_quiz::handlers::handle_answer;
use rust_quiz::handlers::handle_client_message;
use rust_quiz::handlers::handle_connect;
use rust_quiz::handlers::handle_disconnect;
use rust_quiz::handlers::handle_join;
use rust_quiz::handlers::ConnectOutcome;
use rust_quiz::protocol::ClientMessage;
use rust_quiz::protocol::ServerMessage;
use rust_quiz::question::Question;
use rust_quiz::state::ServerState;
use rust_quiz::state::ServerStatus;
use rust_quiz::state::ServerView;
use rust_quiz::state::UserStatus;

fn q(text: &str, correct: usize) -> Question {
    Question {
        text: text.into(),
        code: None,
        options: ["a".into(), "b".into(), "c".into(), "d".into()],
        correct_answer: correct,
    }
}

fn three_questions() -> Vec<Question> {
    vec![q("one", 0), q("two", 1), q("three", 2)]
}

fn ip(a: u32, b: u32, c: u32, d: u32) -> u32 {
    (a << 24) | (b << 16) | (c << 8) | d
}

/// Connects a peer and joins it under the given name; returns its session
/// identity.
fn connect_and_join(st: &mut ServerState, peer: u32, name: &str) -> usize {
    let (outcome, _) = handle_connect(st, peer);
    let id = match outcome {
        ConnectOutcome::Created(id) => id,
        other => panic!("expected a fresh session, got {:?}", other),
    };
    let out = handle_join(st, id, name.to_string());
    assert!(matches!(&out[0].1, ServerMessage::JoinAccepted { .. }));
    id
}

#[test]
fn connect_creates_session_and_acknowledges() {
    let mut st = ServerState::new(three_questions(), 8712);
    let (outcome, out) = handle_connect(&mut st, ip(127, 0, 0, 1));
    assert_eq!(outcome, ConnectOutcome::Created(0));
    assert_eq!(out, vec![(0, ServerMessage::ConnectionAck)]);
    assert_eq!(st.sessions.len(), 1);
    assert_eq!(st.sessions[0].status, UserStatus::Connected);
    assert!(st.sessions[0].username.is_none());
}

#[test]
fn join_binds_name_and_enters_lobby() {
    let mut st = ServerState::new(three_questions(), 8712);
    let id = connect_and_join(&mut st, ip(10, 0, 0, 1), "Ann");
    assert_eq!(st.sessions[id].username.as_deref(), Some("Ann"));
    assert_eq!(st.sessions[id].status, UserStatus::InLobby);
}

#[test]
fn join_trims_whitespace() {
    let mut st = ServerState::new(three_questions(), 8712);
    let (outcome, _) = handle_connect(&mut st, ip(10, 0, 0, 1));
    let id = match outcome {
        ConnectOutcome::Created(id) => id,
        _ => unreachable!(),
    };
    let out = handle_join(&mut st, id, "  Ann  ".to_string());
    assert_eq!(
        out,
        vec![(id, ServerMessage::JoinAccepted { username: "Ann".to_string() })]
    );
    assert_eq!(st.sessions[id].username.as_deref(), Some("Ann"));
}

#[test]
fn join_rejects_bad_lengths_and_taken_names() {
    let mut st = ServerState::new(three_questions(), 8712);
    connect_and_join(&mut st, ip(10, 0, 0, 1), "Ann");

    let (outcome, _) = handle_connect(&mut st, ip(10, 0, 0, 2));
    let id = match outcome {
        ConnectOutcome::Created(id) => id,
        _ => unreachable!(),
    };

    let out = handle_join(&mut st, id, "ab".to_string());
    assert_eq!(
        out,
        vec![(id, ServerMessage::JoinRejected {
            reason: "Username must be at least 3 characters".to_string()
        })]
    );
    let out = handle_join(&mut st, id, "abcdefghijklmnopq".to_string());
    assert_eq!(
        out,
        vec![(id, ServerMessage::JoinRejected {
            reason: "Username must be at most 16 characters".to_string()
        })]
    );
    let out = handle_join(&mut st, id, "Ann".to_string());
    assert_eq!(
        out,
        vec![(id, ServerMessage::JoinRejected {
            reason: "Username is already taken".to_string()
        })]
    );
    // the failed joins left the session untouched
    assert!(st.sessions[id].username.is_none());
    assert_eq!(st.sessions[id].status, UserStatus::Connected);
}

#[test]
fn start_requires_a_named_session() {
    let mut st = ServerState::new(three_questions(), 8712);
    let (res, out) = execute_command(&mut st, "start");
    assert_eq!(
        res,
        CommandResult::Error("No users have joined yet.".to_string())
    );
    assert!(out.is_empty());
    assert_eq!(st.status, ServerStatus::Lobby);
}

#[test]
fn start_twice_is_an_error() {
    let mut st = ServerState::new(three_questions(), 8712);
    connect_and_join(&mut st, ip(10, 0, 0, 1), "Ann");
    let (res, _) = execute_command(&mut st, "start");
    assert_eq!(
        res,
        CommandResult::Success(Some("Quiz started with 1 users!".to_string()))
    );
    assert_eq!(st.status, ServerStatus::InProgress);
    let (res, out) = execute_command(&mut st, "start");
    assert_eq!(
        res,
        CommandResult::Error("Quiz has already started.".to_string())
    );
    assert!(out.is_empty());
}

#[test]
fn start_broadcasts_quiz_start_and_first_question() {
    let mut st = ServerState::new(three_questions(), 8712);
    let a = connect_and_join(&mut st, ip(10, 0, 0, 1), "Ann");
    let b = connect_and_join(&mut st, ip(10, 0, 0, 2), "Bob");
    let (_, out) = execute_command(&mut st, "start");
    assert_eq!(out.len(), 4);
    assert_eq!(out[0], (a, ServerMessage::QuizStart { total_questions: 3 }));
    assert_eq!(out[1], (b, ServerMessage::QuizStart { total_questions: 3 }));
    assert!(matches!(&out[2], (id, ServerMessage::Question { index: 0, .. }) if *id == a));
    assert!(matches!(&out[3], (id, ServerMessage::Question { index: 0, .. }) if *id == b));
    assert_eq!(st.sessions[a].status, UserStatus::Answering(0));
    assert_eq!(st.sessions[a].answers, vec![None, None, None]);
    assert_eq!(st.current_view, ServerView::Analytics);
}

#[test]
fn full_run_scores_and_ranks_ann() {
    // Three questions with correct answers [0, 1, 2]; Ann answers 0, 1, 3.
    let mut st = ServerState::new(three_questions(), 8712);
    let a = connect_and_join(&mut st, ip(10, 0, 0, 1), "Ann");
    execute_command(&mut st, "start");

    let out = handle_answer(&mut st, a, 0, 0, 10);
    assert!(matches!(&out[0].1, ServerMessage::Question { index: 1, .. }));
    let out = handle_answer(&mut st, a, 1, 1, 20);
    assert!(matches!(&out[0].1, ServerMessage::Question { index: 2, .. }));
    let out = handle_answer(&mut st, a, 2, 3, 30);

    assert_eq!(out.len(), 1);
    assert_eq!(out[0].0, a);
    match &out[0].1 {
        ServerMessage::QuizResults { score, total, answers, leaderboard } => {
            assert_eq!(*score, 2);
            assert_eq!(*total, 3);
            let correctness: Vec<bool> = answers.iter().map(|r| r.is_correct).collect();
            assert_eq!(correctness, vec![true, true, false]);
            assert_eq!(leaderboard.len(), 1);
            assert_eq!(leaderboard[0].rank, 1);
            assert_eq!(leaderboard[0].username, "Ann");
            assert_eq!(leaderboard[0].score, 2);
            assert_eq!(leaderboard[0].total, 3);
            assert!(leaderboard[0].is_you);
        }
        other => panic!("expected results, got {:?}", other),
    }
    assert_eq!(st.sessions[a].status, UserStatus::Finished);
    assert_eq!(st.sessions[a].score, Some(2));
    assert_eq!(st.sessions[a].finished_at, Some(30));
}

#[test]
fn stale_submission_is_a_silent_no_op() {
    let mut st = ServerState::new(three_questions(), 8712);
    let a = connect_and_join(&mut st, ip(10, 0, 0, 1), "Ann");
    execute_command(&mut st, "start");
    handle_answer(&mut st, a, 0, 0, 10);

    let feed_before = st.live_answers.len();
    // claimed index 0 again: the current index is already 1
    let out = handle_answer(&mut st, a, 0, 3, 20);
    assert!(out.is_empty());
    assert_eq!(st.sessions[a].answers[0], Some(0));
    assert_eq!(st.sessions[a].status, UserStatus::Answering(1));
    assert_eq!(st.live_answers.len(), feed_before);
    // an index from the future is equally discarded
    let out = handle_answer(&mut st, a, 2, 0, 20);
    assert!(out.is_empty());
}

#[test]
fn submission_before_start_is_a_no_op() {
    let mut st = ServerState::new(three_questions(), 8712);
    let a = connect_and_join(&mut st, ip(10, 0, 0, 1), "Ann");
    let out = handle_answer(&mut st, a, 0, 0, 10);
    assert!(out.is_empty());
    assert_eq!(st.sessions[a].status, UserStatus::InLobby);
}

#[test]
fn late_joiner_gets_full_question_set_from_the_start() {
    let mut st = ServerState::new(three_questions(), 8712);
    connect_and_join(&mut st, ip(10, 0, 0, 1), "Ann");
    execute_command(&mut st, "start");

    let (outcome, _) = handle_connect(&mut st, ip(10, 0, 0, 2));
    let id = match outcome {
        ConnectOutcome::Created(id) => id,
        _ => unreachable!(),
    };
    let out = handle_join(&mut st, id, "Bo".to_string() + "b");
    assert_eq!(out.len(), 3);
    assert_eq!(
        out[0],
        (id, ServerMessage::JoinAccepted { username: "Bob".to_string() })
    );
    assert_eq!(out[1], (id, ServerMessage::QuizStart { total_questions: 3 }));
    assert!(matches!(&out[2].1, ServerMessage::Question { index: 0, .. }));
    assert_eq!(st.sessions[id].status, UserStatus::Answering(0));
}

#[test]
fn reconnect_resumes_a_disconnected_session() {
    // Cid has answered question 0 only, then drops; reconnecting from the
    // same address resumes at question 1 without a second session.
    let mut st = ServerState::new(three_questions(), 8712);
    let peer = ip(10, 0, 0, 7);
    let cid = connect_and_join(&mut st, peer, "Cid");
    execute_command(&mut st, "start");
    handle_answer(&mut st, cid, 0, 0, 10);
    handle_disconnect(&mut st, cid);
    assert_eq!(st.sessions[cid].status, UserStatus::Disconnected);

    let sessions_before = st.sessions.len();
    let (outcome, out) = handle_connect(&mut st, peer);
    assert_eq!(outcome, ConnectOutcome::Reconnected(cid));
    assert_eq!(st.sessions.len(), sessions_before);
    assert_eq!(
        out[0],
        (cid, ServerMessage::ReconnectAccepted {
            username: "Cid".to_string(),
            current_question: 1
        })
    );
    assert!(matches!(&out[1].1, ServerMessage::Question { index: 1, .. }));
    assert_eq!(st.sessions[cid].status, UserStatus::Answering(1));
}

#[test]
fn second_live_connection_is_not_a_reconnect() {
    let mut st = ServerState::new(three_questions(), 8712);
    let peer = ip(10, 0, 0, 7);
    let first = connect_and_join(&mut st, peer, "Ann");
    // the first session is still active, so a second connection from the
    // same address becomes an independent session that takes over the
    // address binding
    let (outcome, _) = handle_connect(&mut st, peer);
    match outcome {
        ConnectOutcome::Created(id) => assert_ne!(id, first),
        other => panic!("expected a fresh session, got {:?}", other),
    }
}

#[test]
fn kick_disconnects_and_reports() {
    let mut st = ServerState::new(three_questions(), 8712);
    let a = connect_and_join(&mut st, ip(10, 0, 0, 1), "Ann");
    let (res, out) = execute_command(&mut st, "kick Ann");
    assert_eq!(
        res,
        CommandResult::Success(Some("Kicked user: Ann".to_string()))
    );
    assert_eq!(
        out,
        vec![(a, ServerMessage::Kicked { reason: "Kicked by host".to_string() })]
    );
    assert_eq!(st.sessions[a].status, UserStatus::Disconnected);
    assert!(!st.sessions[a].connected);

    let (res, _) = execute_command(&mut st, "kick nobody");
    assert_eq!(res, CommandResult::Error("User not found: nobody".to_string()));
    let (res, _) = execute_command(&mut st, "kick");
    assert_eq!(res, CommandResult::Error("Usage: kick <username>".to_string()));
}

#[test]
fn ban_kicks_and_blocks_future_connections() {
    let mut st = ServerState::new(three_questions(), 8712);
    let peer = ip(10, 0, 0, 9);
    let a = connect_and_join(&mut st, peer, "alice");
    let (res, out) = execute_command(&mut st, "ban alice");
    assert_eq!(
        res,
        CommandResult::Success(Some("Banned user: alice (IP: 10.0.0.9)".to_string()))
    );
    assert_eq!(
        out,
        vec![(a, ServerMessage::Kicked { reason: "Banned by host".to_string() })]
    );
    assert_eq!(st.sessions[a].status, UserStatus::Disconnected);

    // a new connection attempt from that address is rejected outright
    let sessions_before = st.sessions.len();
    let (outcome, out) = handle_connect(&mut st, peer);
    assert_eq!(outcome, ConnectOutcome::Banned);
    assert!(out.is_empty());
    assert_eq!(st.sessions.len(), sessions_before);
}

#[test]
fn unban_validates_and_removes() {
    let mut st = ServerState::new(three_questions(), 8712);
    connect_and_join(&mut st, ip(10, 0, 0, 9), "alice");
    execute_command(&mut st, "ban alice");

    let (res, _) = execute_command(&mut st, "unban not-an-ip");
    assert_eq!(
        res,
        CommandResult::Error("Invalid IP address: not-an-ip".to_string())
    );
    let (res, _) = execute_command(&mut st, "unban 10.0.0.8");
    assert_eq!(
        res,
        CommandResult::Error("IP not in ban list: 10.0.0.8".to_string())
    );
    let (res, _) = execute_command(&mut st, "unban 10.0.0.9");
    assert_eq!(
        res,
        CommandResult::Success(Some("Unbanned IP: 10.0.0.9".to_string()))
    );
    assert!(st.banned_ips.is_empty());
    let (res, _) = execute_command(&mut st, "unban 10.0.0.9");
    assert_eq!(
        res,
        CommandResult::Error("IP not in ban list: 10.0.0.9".to_string())
    );
}

#[test]
fn stop_requires_a_running_quiz_and_finishes_once() {
    let mut st = ServerState::new(three_questions(), 8712);
    connect_and_join(&mut st, ip(10, 0, 0, 1), "Ann");
    let (res, _) = execute_command(&mut st, "stop");
    assert_eq!(res, CommandResult::Error("Quiz is not in progress.".to_string()));
    assert_eq!(st.status, ServerStatus::Lobby);

    execute_command(&mut st, "start");
    let (res, _) = execute_command(&mut st, "stop");
    assert_eq!(
        res,
        CommandResult::Success(Some(
            "Quiz stopped. Results sent to finished users.".to_string()
        ))
    );
    assert_eq!(st.status, ServerStatus::Finished);

    let (res, _) = execute_command(&mut st, "stop");
    assert_eq!(res, CommandResult::Error("Quiz is not in progress.".to_string()));
    assert_eq!(st.status, ServerStatus::Finished);
}

#[test]
fn stop_sends_results_to_finished_and_notice_to_others() {
    let mut st = ServerState::new(vec![q("one", 0)], 8712);
    let a = connect_and_join(&mut st, ip(10, 0, 0, 1), "Ann");
    let b = connect_and_join(&mut st, ip(10, 0, 0, 2), "Bob");
    execute_command(&mut st, "start");
    handle_answer(&mut st, a, 0, 0, 10); // Ann finishes
    let (_, out) = execute_command(&mut st, "stop");
    assert_eq!(out.len(), 2);
    assert_eq!(out[0].0, a);
    match &out[0].1 {
        ServerMessage::QuizResults { score, total, leaderboard, .. } => {
            assert_eq!((*score, *total), (1, 1));
            assert_eq!(leaderboard.len(), 1);
        }
        other => panic!("expected results, got {:?}", other),
    }
    assert_eq!(out[1], (b, ServerMessage::HostEndedQuiz));
}

#[test]
fn leaderboard_orders_by_score_then_finish_time() {
    let mut st = ServerState::new(vec![q("one", 0), q("two", 1)], 8712);
    let a = connect_and_join(&mut st, ip(10, 0, 0, 1), "Ann");
    let b = connect_and_join(&mut st, ip(10, 0, 0, 2), "Bob");
    let c = connect_and_join(&mut st, ip(10, 0, 0, 3), "Cid");
    execute_command(&mut st, "start");

    // Bob: 2 points, finishes at t=40; Ann: 2 points, earlier at t=20;
    // Cid: 1 point.
    handle_answer(&mut st, a, 0, 0, 10);
    handle_answer(&mut st, a, 1, 1, 20);
    handle_answer(&mut st, b, 0, 0, 30);
    handle_answer(&mut st, b, 1, 1, 40);
    handle_answer(&mut st, c, 0, 0, 50);
    let out = handle_answer(&mut st, c, 1, 3, 60);

    match &out[0].1 {
        ServerMessage::QuizResults { leaderboard, .. } => {
            let names: Vec<&str> = leaderboard.iter().map(|e| e.username.as_str()).collect();
            assert_eq!(names, vec!["Ann", "Bob", "Cid"]);
            let ranks: Vec<usize> = leaderboard.iter().map(|e| e.rank).collect();
            assert_eq!(ranks, vec![1, 2, 3]);
            assert!(leaderboard[2].is_you);
            assert!(!leaderboard[0].is_you);
        }
        other => panic!("expected results, got {:?}", other),
    }
}

#[test]
fn leaderboard_breaks_full_ties_by_creation_order() {
    let mut st = ServerState::new(vec![q("one", 0)], 8712);
    let a = connect_and_join(&mut st, ip(10, 0, 0, 1), "Ann");
    let b = connect_and_join(&mut st, ip(10, 0, 0, 2), "Bob");
    execute_command(&mut st, "start");
    handle_answer(&mut st, a, 0, 0, 10);
    let out = handle_answer(&mut st, b, 0, 0, 10); // same score, same tick
    match &out[0].1 {
        ServerMessage::QuizResults { leaderboard, .. } => {
            let names: Vec<&str> = leaderboard.iter().map(|e| e.username.as_str()).collect();
            assert_eq!(names, vec!["Ann", "Bob"]);
        }
        other => panic!("expected results, got {:?}", other),
    }
}

#[test]
fn router_dispatches_join_and_answers() {
    let mut st = ServerState::new(three_questions(), 8712);
    let (outcome, _) = handle_connect(&mut st, ip(10, 0, 0, 1));
    let id = match outcome {
        ConnectOutcome::Created(id) => id,
        _ => unreachable!(),
    };
    let out = handle_client_message(
        &mut st,
        id,
        ClientMessage::Join { username: "Ann".to_string() },
        5,
    );
    assert!(matches!(&out[0].1, ServerMessage::JoinAccepted { .. }));
    execute_command(&mut st, "start");
    let out = handle_client_message(
        &mut st,
        id,
        ClientMessage::SubmitAnswer { question_index: 0, answer: 0 },
        6,
    );
    assert!(matches!(&out[0].1, ServerMessage::Question { index: 1, .. }));
}

#[test]
fn quit_notifies_every_connected_session() {
    let mut st = ServerState::new(three_questions(), 8712);
    let a = connect_and_join(&mut st, ip(10, 0, 0, 1), "Ann");
    let (outcome, _) = handle_connect(&mut st, ip(10, 0, 0, 2)); // unnamed
    let b = match outcome {
        ConnectOutcome::Created(id) => id,
        _ => unreachable!(),
    };
    let (res, out) = execute_command(&mut st, "quit");
    assert_eq!(res, CommandResult::Quit);
    assert_eq!(
        out,
        vec![(a, ServerMessage::HostEndedQuiz), (b, ServerMessage::HostEndedQuiz)]
    );
    assert!(st.should_quit);
}

#[test]
fn view_and_list_report_host_side_state() {
    let mut st = ServerState::new(three_questions(), 8712);
    connect_and_join(&mut st, ip(10, 0, 0, 1), "Ann");

    let (res, _) = execute_command(&mut st, "view Ann");
    assert_eq!(res, CommandResult::Success(Some("Viewing user: Ann".to_string())));
    assert_eq!(st.current_view, ServerView::UserDetail("Ann".to_string()));
    let (res, _) = execute_command(&mut st, "view all");
    assert_eq!(res, CommandResult::Success(Some("Viewing all users.".to_string())));
    assert_eq!(st.current_view, ServerView::Analytics);
    let (res, _) = execute_command(&mut st, "view nobody");
    assert_eq!(res, CommandResult::Error("User not found: nobody".to_string()));

    let (res, _) = execute_command(&mut st, "list");
    assert_eq!(
        res,
        CommandResult::Success(Some("Users: Ann (lobby)".to_string()))
    );
    let (res, _) = execute_command(&mut st, "list bans");
    assert_eq!(res, CommandResult::Success(Some("No banned IPs.".to_string())));

    execute_command(&mut st, "ban Ann");
    let (res, _) = execute_command(&mut st, "list bans");
    assert_eq!(
        res,
        CommandResult::Success(Some("Banned IPs: 10.0.0.1".to_string()))
    );
    let (res, _) = execute_command(&mut st, "list");
    assert_eq!(
        res,
        CommandResult::Success(Some("Users: Ann (disconnected)".to_string()))
    );
}

#[test]
fn unknown_and_empty_commands() {
    let mut st = ServerState::new(three_questions(), 8712);
    let (res, out) = execute_command(&mut st, "   ");
    assert_eq!(res, CommandResult::Success(None));
    assert!(out.is_empty());
    let (res, _) = execute_command(&mut st, "frobnicate now");
    assert_eq!(
        res,
        CommandResult::Error(
            "Unknown command: frobnicate. Type 'help' for available commands.".to_string()
        )
    );
    let (res, _) = execute_command(&mut st, "HELP");
    match res {
        CommandResult::Success(Some(m)) => assert!(m.starts_with("Available commands:")),
        other => panic!("expected the help text, got {:?}", other),
    }
}

#[test]
fn run_command_line_logs_outcomes_and_clears_input() {
    let mut st = ServerState::new(three_questions(), 8712);
    for ch in "badcmd".chars() {
        host_input_char(&mut st, ch);
    }
    assert_eq!(st.command_input, "badcmd");
    let (quit, out) = run_command_line(&mut st);
    assert!(!quit);
    assert!(out.is_empty());
    assert_eq!(st.command_input, "");
    assert_eq!(
        st.command_history.last().map(String::as_str),
        Some("Error: Unknown command: badcmd. Type 'help' for available commands.")
    );

    for ch in "quit".chars() {
        host_input_char(&mut st, ch);
    }
    let (quit, _) = run_command_line(&mut st);
    assert!(quit);
    assert!(st.should_quit);
}

#[test]
fn history_and_live_feed_stay_bounded() {
    let mut st = ServerState::new(three_questions(), 8712);
    for i in 0..130 {
        st.add_to_history(format!("note {}", i));
    }
    assert_eq!(st.command_history.len(), 100);
    assert_eq!(st.command_history[0], "note 30");
    assert_eq!(st.command_history[99], "note 129");

    for i in 0..60 {
        st.record_live_answer("Ann".to_string(), i, 0, i as u64);
    }
    assert_eq!(st.live_answers.len(), 50);
    assert_eq!(st.live_answers[0].question_index, 10);
    assert_eq!(st.live_answers[49].question_index, 59);
}

#[test]
fn disconnect_converts_a_finished_session_too() {
    // every transport failure converts the session to Disconnected, a
    // finished one included, and reconnecting restores it to Finished
    let mut st = ServerState::new(vec![q("one", 0)], 8712);
    let a = connect_and_join(&mut st, ip(10, 0, 0, 1), "Ann");
    execute_command(&mut st, "start");
    handle_answer(&mut st, a, 0, 0, 10);
    handle_disconnect(&mut st, a);
    assert_eq!(st.sessions[a].status, UserStatus::Disconnected);
    assert_eq!(st.sessions[a].score, Some(1));

    let sessions_before = st.sessions.len();
    let (outcome, out) = handle_connect(&mut st, ip(10, 0, 0, 1));
    assert_eq!(outcome, ConnectOutcome::Reconnected(a));
    assert_eq!(st.sessions.len(), sessions_before);
    assert_eq!(st.sessions[a].status, UserStatus::Finished);
    // every slot is set, so there is no question to resend
    assert_eq!(
        out,
        vec![(a, ServerMessage::ReconnectAccepted {
            username: "Ann".to_string(),
            current_question: 1
        })]
    );
}

#[test]
fn reconnect_after_stop_restores_finished() {
    let mut st = ServerState::new(vec![q("one", 0)], 8712);
    let a = connect_and_join(&mut st, ip(10, 0, 0, 1), "Ann");
    execute_command(&mut st, "start");
    handle_answer(&mut st, a, 0, 0, 10);
    execute_command(&mut st, "stop");
    handle_disconnect(&mut st, a);

    let (outcome, _) = handle_connect(&mut st, ip(10, 0, 0, 1));
    assert_eq!(outcome, ConnectOutcome::Reconnected(a));
    // own progress decides: all slots set means Finished, not InLobby
    assert_eq!(st.sessions[a].status, UserStatus::Finished);
}

#[test]
fn unnamed_disconnected_session_is_reused_not_duplicated() {
    let mut st = ServerState::new(three_questions(), 8712);
    let (outcome, _) = handle_connect(&mut st, ip(10, 0, 0, 5));
    let id = match outcome {
        ConnectOutcome::Created(id) => id,
        _ => unreachable!(),
    };
    handle_disconnect(&mut st, id);
    assert_eq!(st.sessions[id].status, UserStatus::Disconnected);

    let sessions_before = st.sessions.len();
    let (outcome, out) = handle_connect(&mut st, ip(10, 0, 0, 5));
    assert_eq!(outcome, ConnectOutcome::Reconnected(id));
    assert_eq!(st.sessions.len(), sessions_before);
    // it never completed a Join, so it returns to awaiting a username
    assert_eq!(st.sessions[id].status, UserStatus::Connected);
    assert_eq!(out, vec![(id, ServerMessage::ConnectionAck)]);
}

#[test]
fn second_join_from_a_named_session_is_rejected() {
    let mut st = ServerState::new(three_questions(), 8712);
    let a = connect_and_join(&mut st, ip(10, 0, 0, 1), "Ann");
    // the requested name is free, but a username is set once
    let out = handle_join(&mut st, a, "Eve".to_string());
    assert_eq!(
        out,
        vec![(a, ServerMessage::JoinRejected { reason: "Already joined".to_string() })]
    );
    assert_eq!(st.sessions[a].username.as_deref(), Some("Ann"));
}

#[test]
fn session_counts_and_lookups() {
    let mut st = ServerState::new(three_questions(), 8712);
    assert_eq!(st.named_user_count(), 0);
    let a = connect_and_join(&mut st, ip(10, 0, 0, 1), "Ann");
    handle_connect(&mut st, ip(10, 0, 0, 2)); // unnamed
    assert_eq!(st.named_user_count(), 1);
    assert_eq!(st.finished_count(), 0);
    assert!(st.is_username_taken("Ann"));
    assert!(!st.is_username_taken("Bob"));
    assert_eq!(st.find_user_by_name("Ann"), Some(a));
    assert_eq!(st.find_user_by_ip(ip(10, 0, 0, 1)), Some(a));
    assert_eq!(st.find_user_by_ip(ip(9, 9, 9, 9)), None);
    assert_eq!(st.sessions[a].current_question_index(), 0);
    assert_eq!(st.sessions[a].answered_count(), 0);
    assert!(st.sessions[a].is_connected());
    assert!(!st.sessions[a].is_finished());
}
