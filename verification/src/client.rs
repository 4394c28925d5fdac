//! The participant-side state machine: what a connected participant shows
//! and how each server message or key intention moves it.

use vstd::prelude::*;

use crate::protocol::AnswerResult;
use crate::protocol::LeaderboardEntry;
use crate::protocol::ServerMessage;
use crate::strutil::dec_rep;
use crate::strutil::pop_char;
use crate::strutil::push_char;
use crate::strutil::usize_to_string;

verus! {

/// Data for the question currently on screen.
#[derive(Debug, Clone, PartialEq)]
pub struct QuestionData {
    pub index: usize,
    pub text: String,
    pub code: Option<String>,
    pub options: [String; 4],
}

/// Current state of the participant application.
#[derive(Debug, Clone, PartialEq)]
pub enum ClientState {
    /// Connecting to the server.
    Connecting,
    /// Entering a username.
    NameEntry { input: String, error: Option<String> },
    /// Waiting in the lobby for the quiz to start.
    Lobby { username: String },
    /// Answering quiz questions.
    Quiz {
        username: String,
        current_question: Option<QuestionData>,
        current_index: usize,
        total: usize,
        selected_option: usize,
    },
    /// Viewing results after quiz completion.
    Results {
        score: usize,
        total: usize,
        answers: Vec<AnswerResult>,
        leaderboard: Vec<LeaderboardEntry>,
        scroll: usize,
    },
    /// Disconnected from the server.
    Disconnected { message: String },
}

/// The highlighted option is in range wherever the state carries one:
/// below the four options a question has.  Established by the
/// constructors and kept by every selection move.
pub open spec fn valid_selection(s: ClientState) -> bool {
    s matches ClientState::Quiz { selected_option, .. } ==> selected_option < 4
}

impl ClientState {
    /// A fresh name-entry state: empty input, no error.
    pub fn name_entry() -> (s: ClientState)
        ensures
            s matches ClientState::NameEntry { input, error } && input@.len() == 0 && error
                is None,
    {
        ClientState::NameEntry { input: String::new(), error: None }
    }

    /// A lobby state for the given username.
    pub fn lobby(username: String) -> (s: ClientState)
        ensures
            s == (ClientState::Lobby { username }),
    {
        ClientState::Lobby { username }
    }

    /// A quiz state at the first question, nothing on screen yet.
    pub fn quiz(username: String, total: usize) -> (s: ClientState)
        ensures
            s == (ClientState::Quiz {
                username,
                current_question: None,
                current_index: 0,
                total,
                selected_option: 0,
            }),
            valid_selection(s),
    {
        ClientState::Quiz {
            username,
            current_question: None,
            current_index: 0,
            total,
            selected_option: 0,
        }
    }

    /// A results state at the top of the list.
    pub fn results(
        score: usize,
        total: usize,
        answers: Vec<AnswerResult>,
        leaderboard: Vec<LeaderboardEntry>,
    ) -> (s: ClientState)
        ensures
            s == (ClientState::Results { score, total, answers, leaderboard, scroll: 0 }),
    {
        ClientState::Results { score, total, answers, leaderboard, scroll: 0 }
    }

    /// A disconnected state carrying the reason shown to the user.
    pub fn disconnected(message: String) -> (s: ClientState)
        ensures
            s == (ClientState::Disconnected { message }),
    {
        ClientState::Disconnected { message }
    }

    /// Whether the application is in a state it can be quit from.
    pub fn is_terminal(&self) -> (r: bool)
        ensures
            r == (self matches ClientState::Results { .. } || self matches ClientState::Disconnected
                { .. }),
    {
        match self {
            ClientState::Results { .. } => true,
            ClientState::Disconnected { .. } => true,
            _ => false,
        }
    }

    /// The username, where the state carries one.
    pub fn username(&self) -> (r: Option<&str>)
        ensures
            match self {
                ClientState::Lobby { username } => r matches Some(u) && u@ == username@,
                ClientState::Quiz { username, .. } => r matches Some(u) && u@ == username@,
                _ => r is None,
            },
    {
        match self {
            ClientState::Lobby { username } => Some(username.as_str()),
            ClientState::Quiz { username, .. } => Some(username.as_str()),
            _ => None,
        }
    }
}

/// The participant application: its state plus the connection target.
pub struct ClientApp {
    /// Current state.
    pub state: ClientState,
    /// Server host name or address.
    pub host: String,
    /// Server port.
    pub port: u16,
    /// Whether the application should quit.
    pub should_quit: bool,
}

impl ClientApp {
    /// Creates the application, ready to connect.
    pub fn new(host: String, port: u16) -> (app: ClientApp)
        ensures
            app.state == ClientState::Connecting,
            app.host == host,
            app.port == port,
            !app.should_quit,
    {
        ClientApp { state: ClientState::Connecting, host, port, should_quit: false }
    }

    /// The `host:port` string the application connects to.
    pub fn server_addr(&self) -> (r: String)
        ensures
            r@ == self.host@ + ":"@ + dec_rep(self.port as nat),
    {
        let r = self.host.clone().concat(":").concat(usize_to_string(self.port as usize).as_str());
        r
    }

    /// Moves to name entry.
    pub fn enter_name_entry(&mut self)
        ensures
            final(self).state matches ClientState::NameEntry { input, error } && input@.len() == 0
                && error is None,
            unchanged_but_state(*old(self), *final(self)),
    {
        self.state = ClientState::name_entry();
    }

    /// Moves to the lobby.
    pub fn enter_lobby(&mut self, username: String)
        ensures
            final(self).state == (ClientState::Lobby { username }),
            unchanged_but_state(*old(self), *final(self)),
    {
        self.state = ClientState::lobby(username);
    }

    /// Moves to the quiz, before any question has arrived.
    pub fn enter_quiz(&mut self, username: String, total: usize)
        ensures
            final(self).state == (ClientState::Quiz {
                username,
                current_question: None,
                current_index: 0,
                total,
                selected_option: 0,
            }),
            valid_selection(final(self).state),
            unchanged_but_state(*old(self), *final(self)),
    {
        self.state = ClientState::quiz(username, total);
    }

    /// Puts a question on screen: in the quiz state it becomes the current
    /// question with the highlight reset; any other state is left alone.
    pub fn set_question(&mut self, index: usize, text: String, code: Option<String>, options: [
        String; 4])
        ensures
            unchanged_but_state(*old(self), *final(self)),
            valid_selection(old(self).state) ==> valid_selection(final(self).state),
            match old(self).state {
                ClientState::Quiz { username, total, .. } => final(self).state == (ClientState::Quiz {
                    username,
                    current_question: Some(QuestionData { index, text, code, options }),
                    current_index: index,
                    total,
                    selected_option: 0,
                }),
                _ => final(self).state == old(self).state,
            },
    {
        let mut st = ClientState::Connecting;
        core::mem::swap(&mut st, &mut self.state);
        match st {
            ClientState::Quiz { username, total, .. } => {
                self.state = ClientState::Quiz {
                    username,
                    current_question: Some(QuestionData { index, text, code, options }),
                    current_index: index,
                    total,
                    selected_option: 0,
                };
            },
            other => {
                self.state = other;
            },
        }
    }

    /// Moves to the results screen.
    pub fn enter_results(
        &mut self,
        score: usize,
        total: usize,
        answers: Vec<AnswerResult>,
        leaderboard: Vec<LeaderboardEntry>,
    )
        ensures
            final(self).state == (ClientState::Results {
                score,
                total,
                answers,
                leaderboard,
                scroll: 0,
            }),
            unchanged_but_state(*old(self), *final(self)),
    {
        self.state = ClientState::results(score, total, answers, leaderboard);
    }

    /// Moves to the disconnected screen with the given message.
    pub fn disconnect(&mut self, message: String)
        ensures
            final(self).state == (ClientState::Disconnected { message }),
            unchanged_but_state(*old(self), *final(self)),
    {
        self.state = ClientState::disconnected(message);
    }

    /// Highlights the next option in the quiz, wrapping after the fourth;
    /// outside the quiz nothing changes.
    pub fn select_next_option(&mut self)
        ensures
            unchanged_but_state(*old(self), *final(self)),
            match old(self).state {
                ClientState::Quiz {
                    username,
                    current_question,
                    current_index,
                    total,
                    selected_option,
                } => final(self).state == (ClientState::Quiz {
                    username,
                    current_question,
                    current_index,
                    total,
                    selected_option: ((selected_option + 1) % 4) as usize,
                }),
                _ => final(self).state == old(self).state,
            },
            valid_selection(final(self).state),
    {
        let mut st = ClientState::Connecting;
        core::mem::swap(&mut st, &mut self.state);
        match st {
            ClientState::Quiz { username, current_question, current_index, total, selected_option }
                => {
                let next = (selected_option % 4 + 1) % 4;
                proof {
                    crate::app::lemma_mod_shift(selected_option as int, 1);
                }
                self.state = ClientState::Quiz {
                    username,
                    current_question,
                    current_index,
                    total,
                    selected_option: next,
                };
            },
            other => {
                self.state = other;
            },
        }
    }

    /// Highlights the previous option in the quiz, wrapping before the
    /// first; outside the quiz nothing changes.
    pub fn select_previous_option(&mut self)
        ensures
            unchanged_but_state(*old(self), *final(self)),
            match old(self).state {
                ClientState::Quiz {
                    username,
                    current_question,
                    current_index,
                    total,
                    selected_option,
                } => final(self).state == (ClientState::Quiz {
                    username,
                    current_question,
                    current_index,
                    total,
                    selected_option: ((selected_option + 3) % 4) as usize,
                }),
                _ => final(self).state == old(self).state,
            },
            valid_selection(final(self).state),
    {
        let mut st = ClientState::Connecting;
        core::mem::swap(&mut st, &mut self.state);
        match st {
            ClientState::Quiz { username, current_question, current_index, total, selected_option }
                => {
                let next = (selected_option % 4 + 3) % 4;
                proof {
                    crate::app::lemma_mod_shift(selected_option as int, 3);
                }
                self.state = ClientState::Quiz {
                    username,
                    current_question,
                    current_index,
                    total,
                    selected_option: next,
                };
            },
            other => {
                self.state = other;
            },
        }
    }

    /// The highlighted option, or 0 outside the quiz.
    pub fn selected_option(&self) -> (r: usize)
        ensures
            r == match self.state {
                ClientState::Quiz { selected_option, .. } => selected_option,
                _ => 0usize,
            },
            valid_selection(self.state) ==> r < 4,
    {
        match &self.state {
            ClientState::Quiz { selected_option, .. } => *selected_option,
            _ => 0,
        }
    }

    /// The index of the question on screen, or 0 outside the quiz.
    pub fn current_question_index(&self) -> (r: usize)
        ensures
            r == match self.state {
                ClientState::Quiz { current_index, .. } => current_index,
                _ => 0usize,
            },
    {
        match &self.state {
            ClientState::Quiz { current_index, .. } => *current_index,
            _ => 0,
        }
    }

    /// Scrolls the results one line down, capped at the last answer.
    pub fn scroll_results_down(&mut self)
        ensures
            unchanged_but_state(*old(self), *final(self)),
            match old(self).state {
                ClientState::Results { score, total, answers, leaderboard, scroll } =>
                    final(self).state == (ClientState::Results {
                    score,
                    total,
                    answers,
                    leaderboard,
                    scroll: vstd::math::min(
                        scroll + 1,
                        if answers@.len() == 0 {
                            0int
                        } else {
                            answers@.len() - 1
                        },
                    ) as usize,
                }),
                _ => final(self).state == old(self).state,
            },
    {
        let mut st = ClientState::Connecting;
        core::mem::swap(&mut st, &mut self.state);
        match st {
            ClientState::Results { score, total, answers, leaderboard, scroll } => {
                let max_scroll = if answers.len() == 0 {
                    0
                } else {
                    answers.len() - 1
                };
                let new_scroll = if scroll < max_scroll {
                    scroll + 1
                } else {
                    max_scroll
                };
                self.state = ClientState::Results {
                    score,
                    total,
                    answers,
                    leaderboard,
                    scroll: new_scroll,
                };
            },
            other => {
                self.state = other;
            },
        }
    }

    /// Scrolls the results one line up, stopping at the top.
    pub fn scroll_results_up(&mut self)
        ensures
            unchanged_but_state(*old(self), *final(self)),
            match old(self).state {
                ClientState::Results { score, total, answers, leaderboard, scroll } =>
                    final(self).state == (ClientState::Results {
                    score,
                    total,
                    answers,
                    leaderboard,
                    scroll: if scroll == 0 {
                        0usize
                    } else {
                        (scroll - 1) as usize
                    },
                }),
                _ => final(self).state == old(self).state,
            },
    {
        let mut st = ClientState::Connecting;
        core::mem::swap(&mut st, &mut self.state);
        match st {
            ClientState::Results { score, total, answers, leaderboard, scroll } => {
                let new_scroll = if scroll == 0 {
                    0
                } else {
                    scroll - 1
                };
                self.state = ClientState::Results { score, total, answers, leaderboard, scroll: new_scroll };
            },
            other => {
                self.state = other;
            },
        }
    }

    /// Appends a character to the name being entered, up to 16 characters;
    /// outside name entry nothing changes.
    pub fn name_input_push(&mut self, c: char)
        ensures
            unchanged_but_state(*old(self), *final(self)),
            match old(self).state {
                ClientState::NameEntry { input, error } => final(self).state matches
                    ClientState::NameEntry { input: ni, error: ne } && ne == error && ni@ == (
                if input@.len() < 16 {
                    input@.push(c)
                } else {
                    input@
                }),
                _ => final(self).state == old(self).state,
            },
    {
        let mut st = ClientState::Connecting;
        core::mem::swap(&mut st, &mut self.state);
        match st {
            ClientState::NameEntry { mut input, error } => {
                if input.as_str().unicode_len() < 16 {
                    push_char(&mut input, c);
                }
                self.state = ClientState::NameEntry { input, error };
            },
            other => {
                self.state = other;
            },
        }
    }

    /// Removes the last character of the name being entered, if any;
    /// outside name entry nothing changes.
    pub fn name_input_pop(&mut self)
        ensures
            unchanged_but_state(*old(self), *final(self)),
            match old(self).state {
                ClientState::NameEntry { input, error } => final(self).state matches
                    ClientState::NameEntry { input: ni, error: ne } && ne == error && ni@ == (
                if input@.len() == 0 {
                    input@
                } else {
                    input@.drop_last()
                }),
                _ => final(self).state == old(self).state,
            },
    {
        let mut st = ClientState::Connecting;
        core::mem::swap(&mut st, &mut self.state);
        match st {
            ClientState::NameEntry { mut input, error } => {
                let _ = pop_char(&mut input);
                self.state = ClientState::NameEntry { input, error };
            },
            other => {
                self.state = other;
            },
        }
    }

    /// The name entered so far, or the empty string outside name entry.
    pub fn name_input(&self) -> (r: &str)
        ensures
            r@ == match self.state {
                ClientState::NameEntry { input, .. } => input@,
                _ => Seq::<char>::empty(),
            },
    {
        match &self.state {
            ClientState::NameEntry { input, .. } => input.as_str(),
            _ => {
                proof {
                    reveal_strlit("");
                    assert(""@ =~= Seq::<char>::empty());
                }
                ""
            },
        }
    }

    /// Shows an error under the name being entered; outside name entry
    /// nothing changes.
    pub fn set_name_error(&mut self, err: String)
        ensures
            unchanged_but_state(*old(self), *final(self)),
            match old(self).state {
                ClientState::NameEntry { input, .. } => final(self).state == (
                ClientState::NameEntry { input, error: Some(err) }),
                _ => final(self).state == old(self).state,
            },
    {
        let mut st = ClientState::Connecting;
        core::mem::swap(&mut st, &mut self.state);
        match st {
            ClientState::NameEntry { input, .. } => {
                self.state = ClientState::NameEntry { input, error: Some(err) };
            },
            other => {
                self.state = other;
            },
        }
    }

    /// Clears the error under the name being entered; outside name entry
    /// nothing changes.
    pub fn clear_name_error(&mut self)
        ensures
            unchanged_but_state(*old(self), *final(self)),
            match old(self).state {
                ClientState::NameEntry { input, .. } => final(self).state == (
                ClientState::NameEntry { input, error: None }),
                _ => final(self).state == old(self).state,
            },
    {
        let mut st = ClientState::Connecting;
        core::mem::swap(&mut st, &mut self.state);
        match st {
            ClientState::NameEntry { input, .. } => {
                self.state = ClientState::NameEntry { input, error: None };
            },
            other => {
                self.state = other;
            },
        }
    }
}

/// The two applications agree on everything but the state field.
pub open spec fn unchanged_but_state(a: ClientApp, b: ClientApp) -> bool {
    b.host == a.host && b.port == a.port && b.should_quit == a.should_quit
}

/// The username a state carries, or the empty sequence.
pub open spec fn spec_state_username(state: ClientState) -> Seq<char> {
    match state {
        ClientState::Lobby { username } => username@,
        ClientState::Quiz { username, .. } => username@,
        _ => Seq::<char>::empty(),
    }
}

impl ClientApp {
    /// The username of the current state as an owned string, or empty.
    fn owned_username(&self) -> (r: String)
        ensures
            r@ == spec_state_username(self.state),
    {
        match self.state.username() {
            Some(u) => u.to_owned(),
            None => String::new(),
        }
    }

    /// Applies one decoded server message to the application, as the
    /// connection's read loop does: acknowledgements move between screens, a
    /// question lands on the quiz screen (entering it if need be), results
    /// and terminations end the run.
    pub fn apply_server_message(&mut self, msg: ServerMessage)
        ensures
            unchanged_but_state(*old(self), *final(self)),
            valid_selection(old(self).state) ==> valid_selection(final(self).state),
            match msg {
                ServerMessage::ConnectionAck => final(self).state matches ClientState::NameEntry {
                    input,
                    error,
                } && input@.len() == 0 && error is None,
                ServerMessage::JoinAccepted { username } => final(self).state == (
                ClientState::Lobby { username }),
                ServerMessage::JoinRejected { reason } => match old(self).state {
                    ClientState::NameEntry { input, .. } => final(self).state == (
                    ClientState::NameEntry { input, error: Some(reason) }),
                    _ => final(self).state == old(self).state,
                },
                ServerMessage::ReconnectAccepted { username, .. } => final(self).state == (
                ClientState::Lobby { username }),
                ServerMessage::QuizStart { total_questions } => final(self).state matches
                    ClientState::Quiz {
                    username: u,
                    current_question: None,
                    current_index: 0,
                    total,
                    selected_option: 0,
                } && total == total_questions && u@ == spec_state_username(old(self).state),
                ServerMessage::Question { index, text, code, options } => match old(self).state {
                    ClientState::Quiz { username, total, .. } => final(self).state == (
                    ClientState::Quiz {
                        username,
                        current_question: Some(QuestionData { index, text, code, options }),
                        current_index: index,
                        total,
                        selected_option: 0,
                    }),
                    _ => final(self).state matches ClientState::Quiz {
                        username: u,
                        current_question: cq,
                        current_index,
                        total,
                        selected_option: 0,
                    } && u@ == spec_state_username(old(self).state) && cq == Some(
                        QuestionData { index, text, code, options },
                    ) && current_index == index && total == (
                    if index == usize::MAX {
                        usize::MAX as int
                    } else {
                        index + 1
                    }),
                },
                ServerMessage::QuizResults { score, total, answers, leaderboard } =>
                    final(self).state == (ClientState::Results { score, total, answers, leaderboard, scroll: 0 }),
                ServerMessage::Kicked { reason } => final(self).state matches
                    ClientState::Disconnected { message } && message@ == "Kicked: "@ + reason@,
                ServerMessage::HostEndedQuiz => final(self).state matches
                    ClientState::Disconnected { message } && message@ == "HOST ENDED QUIZ"@,
                ServerMessage::ServerClosing => final(self).state matches
                    ClientState::Disconnected { message } && message@
                    == "Server is shutting down"@,
            },
    {
        match msg {
            ServerMessage::ConnectionAck => {
                self.enter_name_entry();
            },
            ServerMessage::JoinAccepted { username } => {
                self.enter_lobby(username);
            },
            ServerMessage::JoinRejected { reason } => {
                self.set_name_error(reason);
            },
            ServerMessage::ReconnectAccepted { username, current_question: _ } => {
                self.state = ClientState::Lobby { username };
            },
            ServerMessage::QuizStart { total_questions } => {
                let username = self.owned_username();
                self.enter_quiz(username, total_questions);
            },
            ServerMessage::Question { index, text, code, options } => {
                let in_quiz = matches!(&self.state, ClientState::Quiz { .. });
                if in_quiz {
                    self.set_question(index, text, code, options);
                } else {
                    let username = self.owned_username();
                    let total = if index == usize::MAX {
                        usize::MAX
                    } else {
                        index + 1
                    };
                    self.state = ClientState::Quiz {
                        username,
                        current_question: Some(QuestionData { index, text, code, options }),
                        current_index: index,
                        total,
                        selected_option: 0,
                    };
                }
            },
            ServerMessage::QuizResults { score, total, answers, leaderboard } => {
                self.enter_results(score, total, answers, leaderboard);
            },
            ServerMessage::Kicked { reason } => {
                let message = String::from_str("Kicked: ").concat(reason.as_str());
                self.disconnect(message);
            },
            ServerMessage::HostEndedQuiz => {
                let message = String::from_str("HOST ENDED QUIZ");
                self.disconnect(message);
            },
            ServerMessage::ServerClosing => {
                let message = String::from_str("Server is shutting down");
                self.disconnect(message);
            },
        }
    }
}

} // verus!
