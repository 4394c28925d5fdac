//! Protocol messages exchanged between participants and the server, and
//! username validation.
//!
//! The library builds and consumes these values; encoding them for the wire
//! and carrying them over a connection happens outside.

use vstd::prelude::*;

use crate::strutil::trim_spec;
use crate::strutil::trim;

verus! {

/// Messages sent from a participant to the server.
#[derive(Debug, Clone, PartialEq)]
pub enum ClientMessage {
    /// The participant wants to join with a username.
    Join { username: String },
    /// The participant submits an answer for the current question.
    SubmitAnswer { question_index: usize, answer: usize },
}

/// Messages sent from the server to a participant.
#[derive(Debug, Clone, PartialEq)]
pub enum ServerMessage {
    /// Connection accepted, waiting for a Join message.
    ConnectionAck,
    /// Username accepted, the participant is now in the lobby.
    JoinAccepted { username: String },
    /// Username rejected (taken, invalid length, etc.).
    JoinRejected { reason: String },
    /// Reconnection successful, resuming the previous session.
    ReconnectAccepted { username: String, current_question: usize },
    /// The quiz is starting.
    QuizStart { total_questions: usize },
    /// The next question to answer.
    Question { index: usize, text: String, code: Option<String>, options: [String; 4] },
    /// Quiz complete, with results.
    QuizResults {
        score: usize,
        total: usize,
        answers: Vec<AnswerResult>,
        leaderboard: Vec<LeaderboardEntry>,
    },
    /// The participant has been kicked by the host.
    Kicked { reason: String },
    /// The host ended the quiz abruptly.
    HostEndedQuiz,
    /// The server is shutting down.
    ServerClosing,
}

/// Result for a single answered question.
#[derive(Debug, Clone, PartialEq)]
pub struct AnswerResult {
    pub question_index: usize,
    pub question_text: String,
    pub your_answer: usize,
    pub correct_answer: usize,
    pub is_correct: bool,
    pub options: [String; 4],
}

/// Entry in the leaderboard.
#[derive(Debug, Clone, PartialEq)]
pub struct LeaderboardEntry {
    pub rank: usize,
    pub username: String,
    pub score: usize,
    pub total: usize,
    pub is_you: bool,
}

/// Shortest accepted username, after trimming.
pub const USERNAME_MIN_LENGTH: usize = 3;

/// Longest accepted username, after trimming.
pub const USERNAME_MAX_LENGTH: usize = 16;

/// Default server port.
pub const DEFAULT_PORT: u16 = 8712;

/// Whether a raw username is accepted: its whitespace-trimmed form has
/// between [`USERNAME_MIN_LENGTH`] and [`USERNAME_MAX_LENGTH`] characters.
pub open spec fn valid_username(s: Seq<char>) -> bool {
    USERNAME_MIN_LENGTH <= trim_spec(s).len() <= USERNAME_MAX_LENGTH
}

/// Validates a raw username: accepted exactly when its trimmed form is
/// neither shorter than [`USERNAME_MIN_LENGTH`] nor longer than
/// [`USERNAME_MAX_LENGTH`] characters; each rejection carries its reason.
pub fn validate_username(username: &str) -> (r: Result<(), &'static str>)
    ensures
        r is Ok <==> valid_username(username@),
        trim_spec(username@).len() < USERNAME_MIN_LENGTH ==> (r matches Err(m) && m@
            == "Username must be at least 3 characters"@),
        trim_spec(username@).len() > USERNAME_MAX_LENGTH ==> (r matches Err(m) && m@
            == "Username must be at most 16 characters"@),
{
    let trimmed = trim(username);
    let len = trimmed.as_str().unicode_len();
    if len < USERNAME_MIN_LENGTH {
        Err("Username must be at least 3 characters")
    } else if len > USERNAME_MAX_LENGTH {
        Err("Username must be at most 16 characters")
    } else {
        Ok(())
    }
}

} // verus!
