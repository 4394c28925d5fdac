//! Connection lifecycle and message routing: what one decoded participant
//! event does to the registry, and which messages go out in response.
//!
//! Each handler applies one state transition and returns the messages to
//! deliver as `(session identity, message)` pairs; the transport outside
//! performs the sends.  The clock is handed in by the caller as a
//! monotonic tick value.

use vstd::prelude::*;

use crate::protocol::ClientMessage;
use crate::protocol::ServerMessage;
use crate::protocol::validate_username;
use crate::question::clone_options;
use crate::question::clone_string_opt;
use crate::question::spec_score;
use crate::state::HISTORY_CAP;
use crate::state::LIVE_ANSWER_CAP;
use crate::state::ServerState;
use crate::state::ServerStatus;
use crate::state::UserSession;
use crate::state::UserStatus;
use crate::state::feed_after;
use crate::state::feed_after_str;
use crate::state::lb_entries_match;
use crate::state::lb_order_ok;
use crate::state::spec_current_index;
use crate::state::spec_name_taken;
use crate::state::wf;
use crate::strutil::dec_rep;
use crate::strutil::trim;
use crate::strutil::trim_spec;
use crate::strutil::usize_to_string;

verus! {

/// Messages to deliver, each to the session with the given identity.
pub type Outbox = Vec<(usize, ServerMessage)>;

/// The history after this transition: the same entries with one whose text
/// is `m` appended, under the cap.
pub open spec fn history_appended(pre: Seq<String>, post: Seq<String>, m: Seq<char>) -> bool {
    exists|x: String| x@ == m && post == feed_after_str(pre, x, HISTORY_CAP as int)
}

/// The two states agree on every field a Join leaves alone.
pub open spec fn join_frame(pre: ServerState, post: ServerState) -> bool {
    &&& post.status == pre.status
    &&& post.questions == pre.questions
    &&& post.ip_index == pre.ip_index
    &&& post.banned_ips == pre.banned_ips
    &&& post.current_view == pre.current_view
    &&& post.previous_view == pre.previous_view
    &&& post.command_input == pre.command_input
    &&& post.live_answers == pre.live_answers
    &&& post.should_quit == pre.should_quit
    &&& post.port == pre.port
}

/// A rejected Join: the state is untouched and the one message is the
/// rejection, with its reason, to the joining session.
pub open spec fn join_rejected(
    pre: ServerState,
    post: ServerState,
    id: int,
    reason: Seq<char>,
    outbox: Seq<(usize, ServerMessage)>,
) -> bool {
    &&& post == pre
    &&& outbox.len() == 1
    &&& outbox[0].0 == id as usize
    &&& (outbox[0].1 matches ServerMessage::JoinRejected { reason: r } && r@ == reason)
}

/// An accepted Join: the trimmed name is bound to this session and no
/// other; in the lobby (or after the quiz) the session just enters the
/// lobby and is told so; during the quiz the late joiner gets a full
/// answer list, starts answering at question zero, and receives the
/// accept, the quiz start and the first question.
pub open spec fn join_accepted(
    pre: ServerState,
    post: ServerState,
    id: int,
    name: Seq<char>,
    outbox: Seq<(usize, ServerMessage)>,
) -> bool {
    let s0 = pre.sessions@[id];
    let s1 = post.sessions@[id];
    let qlen = pre.questions@.len() as int;
    &&& join_frame(pre, post)
    &&& post.sessions@.len() == pre.sessions@.len()
    &&& forall|j: int|
        0 <= j < pre.sessions@.len() && j != id ==> post.sessions@[j] == pre.sessions@[j]
    &&& (s1.username matches Some(u) && u@ == name)
    &&& s1.ip_addr == s0.ip_addr
    &&& s1.connected == s0.connected
    &&& s1.score == s0.score
    &&& s1.finished_at == s0.finished_at
    &&& if pre.status is InProgress {
        &&& s1.status == UserStatus::Answering(0)
        &&& s1.answers@.len() == qlen
        &&& forall|k: int| 0 <= k < qlen ==> s1.answers@[k] is None
        &&& outbox.len() == (if qlen > 0 {
            3int
        } else {
            2int
        })
        &&& outbox[0].0 == id as usize
        &&& (outbox[0].1 matches ServerMessage::JoinAccepted { username: u } && u@ == name)
        &&& outbox[1].0 == id as usize
        &&& (outbox[1].1 matches ServerMessage::QuizStart { total_questions } && total_questions
            == qlen)
        &&& qlen > 0 ==> outbox[2].0 == id as usize && question_message(
            outbox[2].1,
            pre.questions@,
            0,
        )
        &&& history_appended(
            pre.command_history@,
            post.command_history@,
            "User "@ + name + " joined (late)"@,
        )
    } else {
        &&& s1.status == UserStatus::InLobby
        &&& s1.answers == s0.answers
        &&& outbox.len() == 1
        &&& outbox[0].0 == id as usize
        &&& (outbox[0].1 matches ServerMessage::JoinAccepted { username: u } && u@ == name)
        &&& history_appended(
            pre.command_history@,
            post.command_history@,
            "User "@ + name + " joined"@,
        )
    }
}

/// Whether `m` is the question message for `questions[i]`.
pub open spec fn question_message(m: ServerMessage, questions: Seq<crate::question::Question>, i: int) -> bool {
    m == (ServerMessage::Question {
        index: i as usize,
        text: questions[i].text,
        code: questions[i].code,
        options: questions[i].options,
    })
}

/// Handles a Join request: the raw username is trimmed; it is rejected,
/// with the state untouched, when its trimmed length is out of range, when
/// this session already completed a Join (a username is set once, then
/// immutable), or when another session holds the name; else it is bound to
/// this session, which enters the lobby or, during the quiz, starts
/// answering from question zero.
pub fn handle_join(state: &mut ServerState, id: usize, username: String) -> (outbox: Outbox)
    requires
        wf(*old(state)),
        id < old(state).sessions@.len(),
    ensures
        wf(*final(state)),
        ({
            let name = trim_spec(username@);
            if name.len() < crate::protocol::USERNAME_MIN_LENGTH {
                join_rejected(
                    *old(state),
                    *final(state),
                    id as int,
                    "Username must be at least 3 characters"@,
                    outbox@,
                )
            } else if name.len() > crate::protocol::USERNAME_MAX_LENGTH {
                join_rejected(
                    *old(state),
                    *final(state),
                    id as int,
                    "Username must be at most 16 characters"@,
                    outbox@,
                )
            } else if old(state).sessions@[id as int].username is Some {
                join_rejected(*old(state), *final(state), id as int, "Already joined"@, outbox@)
            } else if spec_name_taken(old(state).sessions@, name) {
                join_rejected(
                    *old(state),
                    *final(state),
                    id as int,
                    "Username is already taken"@,
                    outbox@,
                )
            } else {
                join_accepted(*old(state), *final(state), id as int, name, outbox@)
            }
        }),
{
    let mut outbox: Outbox = Vec::new();
    let trimmed = trim(username.as_str());

    if let Err(reason) = validate_username(username.as_str()) {
        outbox.push((id, ServerMessage::JoinRejected { reason: String::from_str(reason) }));
        return outbox;
    }

    if self_named(state, id) {
        outbox.push(
            (id, ServerMessage::JoinRejected { reason: String::from_str("Already joined") }),
        );
        return outbox;
    }
    if state.is_username_taken(trimmed.as_str()) {
        outbox.push(
            (id, ServerMessage::JoinRejected { reason: String::from_str(
                "Username is already taken",
            ) }),
        );
        return outbox;
    }

    let qlen = state.questions.len();
    let in_progress = matches!(state.status, ServerStatus::InProgress);

    let mut sess = UserSession::new(0);
    state.sessions.set_and_swap(id, &mut sess);
    sess.username = Some(trimmed.clone());
    if in_progress {
        sess.init_answers(qlen);
        sess.status = UserStatus::Answering(0);
    } else {
        sess.status = UserStatus::InLobby;
    }
    state.sessions.set_and_swap(id, &mut sess);

    outbox.push((id, ServerMessage::JoinAccepted { username: trimmed.clone() }));
    if in_progress {
        outbox.push((id, ServerMessage::QuizStart { total_questions: qlen }));
        if qlen > 0 {
            let q = &state.questions[0];
            outbox.push(
                (id, ServerMessage::Question {
                    index: 0,
                    text: q.text.clone(),
                    code: clone_string_opt(&q.code),
                    options: clone_options(&q.options),
                }),
            );
        }
        let m = String::from_str("User ").concat(trimmed.as_str()).concat(" joined (late)");
        state.add_to_history(m);
    } else {
        let m = String::from_str("User ").concat(trimmed.as_str()).concat(" joined");
        state.add_to_history(m);
    }
    outbox
}

/// Whether this session already has a username.
fn self_named(state: &ServerState, id: usize) -> (r: bool)
    requires
        id < state.sessions@.len(),
    ensures
        r == (state.sessions@[id as int].username is Some),
{
    state.sessions[id].username.is_some()
}

/// Marks a session's connection as dropped: the outbound connection is
/// detached and the status becomes `Disconnected` — every transport
/// failure converts the session, a finished one included, so a later
/// connection from its address can resume it.  A named drop is logged.
pub fn handle_disconnect(state: &mut ServerState, id: usize)
    requires
        wf(*old(state)),
        id < old(state).sessions@.len(),
    ensures
        wf(*final(state)),
        ({
            let s0 = old(state).sessions@[id as int];
            let s1 = final(state).sessions@[id as int];
            &&& join_frame(*old(state), *final(state))
            &&& final(state).sessions@.len() == old(state).sessions@.len()
            &&& forall|j: int|
                0 <= j < old(state).sessions@.len() && j != id ==> final(state).sessions@[j] == old(
                    state,
                ).sessions@[j]
            &&& !s1.connected
            &&& s1.username == s0.username
            &&& s1.ip_addr == s0.ip_addr
            &&& s1.answers == s0.answers
            &&& s1.score == s0.score
            &&& s1.finished_at == s0.finished_at
            &&& s1.status == UserStatus::Disconnected
            &&& if s0.username is Some {
                history_appended(
                    old(state).command_history@,
                    final(state).command_history@,
                    "User "@ + s0.username.unwrap()@ + " disconnected"@,
                )
            } else {
                final(state).command_history == old(state).command_history
            }
        }),
{
    let mut sess = UserSession::new(0);
    state.sessions.set_and_swap(id, &mut sess);
    sess.connected = false;
    sess.status = UserStatus::Disconnected;
    let name_to_log = match &sess.username {
        Some(u) => Some(u.clone()),
        None => None,
    };
    state.sessions.set_and_swap(id, &mut sess);
    if let Some(name) = name_to_log {
        let m = String::from_str("User ").concat(name.as_str()).concat(" disconnected");
        state.add_to_history(m);
    }
}

/// The live feed after this transition: the same entries with one for this
/// answer appended, under the cap.
pub open spec fn feed_appended(
    pre: Seq<crate::state::LiveAnswer>,
    post: Seq<crate::state::LiveAnswer>,
    name: Seq<char>,
    qi: usize,
    ans: usize,
    ts: u64,
) -> bool {
    exists|e: crate::state::LiveAnswer|
        e.username@ == name && e.question_index == qi && e.answer == ans && e.timestamp == ts
            && post == feed_after(pre, e, LIVE_ANSWER_CAP as int)
}

/// The two states agree on every field an answer submission leaves alone.
pub open spec fn answer_frame(pre: ServerState, post: ServerState) -> bool {
    &&& post.status == pre.status
    &&& post.questions == pre.questions
    &&& post.ip_index == pre.ip_index
    &&& post.banned_ips == pre.banned_ips
    &&& post.current_view == pre.current_view
    &&& post.previous_view == pre.previous_view
    &&& post.command_input == pre.command_input
    &&& post.should_quit == pre.should_quit
    &&& post.port == pre.port
}

/// An accepted answer: the choice lands in the claimed slot, the answer is
/// fed to the live feed, and the session either advances to the next
/// question (and receives it) or, after the last question, finishes: its
/// finish time is stamped, its score is the count of correct slots, and it
/// receives the full results with the fresh leaderboard.
pub open spec fn answer_accepted(
    pre: ServerState,
    post: ServerState,
    id: int,
    qi: usize,
    answer: usize,
    now: u64,
    outbox: Seq<(usize, ServerMessage)>,
) -> bool {
    let s0 = pre.sessions@[id];
    let s1 = post.sessions@[id];
    let name = s0.username.unwrap()@;
    let qlen = pre.questions@.len() as int;
    &&& answer_frame(pre, post)
    &&& post.sessions@.len() == pre.sessions@.len()
    &&& forall|j: int|
        0 <= j < pre.sessions@.len() && j != id ==> post.sessions@[j] == pre.sessions@[j]
    &&& s1.answers@ == s0.answers@.update(qi as int, Some(answer))
    &&& s1.username == s0.username
    &&& s1.ip_addr == s0.ip_addr
    &&& s1.connected == s0.connected
    &&& feed_appended(pre.live_answers@, post.live_answers@, name, qi, answer, now)
    &&& if qi + 1 >= qlen {
        &&& s1.status is Finished
        &&& s1.finished_at == Some(now)
        &&& s1.score == Some(spec_score(s1.answers@, pre.questions@) as usize)
        &&& outbox.len() == 1
        &&& outbox[0].0 == id as usize
        &&& (outbox[0].1 matches ServerMessage::QuizResults { score, total, answers, leaderboard }
            && score == spec_score(s1.answers@, pre.questions@) && total == qlen && answers@
            == crate::state::spec_answer_results(s1.answers@, pre.questions@, s1.answers@.len() as int)
            && (exists|ids: Seq<usize>|
            #[trigger] lb_order_ok(post.sessions@, ids) && lb_entries_match(
                post.sessions@,
                qlen,
                name,
                ids,
                leaderboard@,
            )))
        &&& history_appended(
            pre.command_history@,
            post.command_history@,
            "User "@ + name + " finished with score "@ + dec_rep(
                spec_score(s1.answers@, pre.questions@),
            ) + "/"@ + dec_rep(qlen as nat),
        )
    } else {
        &&& s1.status == UserStatus::Answering((qi + 1) as usize)
        &&& s1.score == s0.score
        &&& s1.finished_at == s0.finished_at
        &&& outbox.len() == 1
        &&& outbox[0].0 == id as usize
        &&& question_message(outbox[0].1, pre.questions@, qi + 1)
        &&& post.command_history == pre.command_history
    }
}

/// Handles an answer submission: a claimed index other than the session's
/// derived current index (or one with no slot) is discarded silently, with
/// no state change and no message; a matching one is recorded and the
/// session advances or finishes.
pub fn handle_answer(
    state: &mut ServerState,
    id: usize,
    question_index: usize,
    answer: usize,
    now: u64,
) -> (outbox: Outbox)
    requires
        wf(*old(state)),
        id < old(state).sessions@.len(),
    ensures
        wf(*final(state)),
        ({
            let s0 = old(state).sessions@[id as int];
            if question_index != spec_current_index(s0.answers@) || question_index
                >= s0.answers@.len() {
                *final(state) == *old(state) && outbox@.len() == 0
            } else {
                answer_accepted(
                    *old(state),
                    *final(state),
                    id as int,
                    question_index,
                    answer,
                    now,
                    outbox@,
                )
            }
        }),
{
    let mut outbox: Outbox = Vec::new();
    let cur = state.sessions[id].current_question_index();
    let slots = state.sessions[id].answers.len();
    if question_index != cur || question_index >= slots {
        return outbox;
    }

    let qlen = state.questions.len();
    let mut sess = UserSession::new(0);
    state.sessions.set_and_swap(id, &mut sess);
    sess.answers.set(question_index, Some(answer));
    let name = match &sess.username {
        Some(u) => u.clone(),
        None => {
            proof {
                assert(false);
            }
            String::new()
        },
    };
    let last = question_index + 1 >= qlen;
    if last {
        sess.status = UserStatus::Finished;
        sess.finished_at = Some(now);
        let score = sess.calculate_score(&state.questions);
        sess.score = Some(score);
        let results = state.generate_answer_results(&sess);
        state.sessions.set_and_swap(id, &mut sess);
        let leaderboard = state.generate_leaderboard(name.as_str());
        outbox.push(
            (id, ServerMessage::QuizResults { score, total: qlen, answers: results, leaderboard }),
        );
        state.record_live_answer(name.clone(), question_index, answer, now);
        let m = String::from_str("User ").concat(name.as_str()).concat(
            " finished with score ",
        ).concat(usize_to_string(score).as_str()).concat("/").concat(
            usize_to_string(qlen).as_str(),
        );
        state.add_to_history(m);
    } else {
        sess.status = UserStatus::Answering(question_index + 1);
        state.sessions.set_and_swap(id, &mut sess);
        state.record_live_answer(name, question_index, answer, now);
        let q = &state.questions[question_index + 1];
        outbox.push(
            (id, ServerMessage::Question {
                index: question_index + 1,
                text: q.text.clone(),
                code: clone_string_opt(&q.code),
                options: clone_options(&q.options),
            }),
        );
    }
    outbox
}

/// Routes one decoded participant message to its handler.
pub fn handle_client_message(
    state: &mut ServerState,
    id: usize,
    msg: ClientMessage,
    now: u64,
) -> (outbox: Outbox)
    requires
        wf(*old(state)),
        id < old(state).sessions@.len(),
    ensures
        wf(*final(state)),
        final(state).sessions@.len() == old(state).sessions@.len(),
        ({
            match msg {
                ClientMessage::Join { username } => {
                    let name = trim_spec(username@);
                    if name.len() < crate::protocol::USERNAME_MIN_LENGTH {
                        join_rejected(
                            *old(state),
                            *final(state),
                            id as int,
                            "Username must be at least 3 characters"@,
                            outbox@,
                        )
                    } else if name.len() > crate::protocol::USERNAME_MAX_LENGTH {
                        join_rejected(
                            *old(state),
                            *final(state),
                            id as int,
                            "Username must be at most 16 characters"@,
                            outbox@,
                        )
                    } else if old(state).sessions@[id as int].username is Some {
                        join_rejected(
                            *old(state),
                            *final(state),
                            id as int,
                            "Already joined"@,
                            outbox@,
                        )
                    } else if spec_name_taken(old(state).sessions@, name) {
                        join_rejected(
                            *old(state),
                            *final(state),
                            id as int,
                            "Username is already taken"@,
                            outbox@,
                        )
                    } else {
                        join_accepted(*old(state), *final(state), id as int, name, outbox@)
                    }
                },
                ClientMessage::SubmitAnswer { question_index, answer } => {
                    let s0 = old(state).sessions@[id as int];
                    if question_index != spec_current_index(s0.answers@) || question_index
                        >= s0.answers@.len() {
                        *final(state) == *old(state) && outbox@.len() == 0
                    } else {
                        answer_accepted(
                            *old(state),
                            *final(state),
                            id as int,
                            question_index,
                            answer,
                            now,
                            outbox@,
                        )
                    }
                },
            }
        }),
{
    match msg {
        ClientMessage::Join { username } => handle_join(state, id, username),
        ClientMessage::SubmitAnswer { question_index, answer } => handle_answer(
            state,
            id,
            question_index,
            answer,
            now,
        ),
    }
}

/// How a connection event was resolved.
#[derive(Debug, Clone, Copy, PartialEq, Eq, Structural)]
pub enum ConnectOutcome {
    /// The peer address is banned; nothing was created or touched.
    Banned,
    /// The disconnected session with this identity was reattached.
    Reconnected(usize),
    /// A fresh session with this identity was created.
    Created(usize),
}

/// Whether some binding holds this peer address.
pub open spec fn spec_ip_bound(st: ServerState, ip: crate::state::IpV4) -> bool {
    exists|k: int| 0 <= k < st.ip_index@.len() && st.ip_index@[k].ip == ip
}

/// The identity the peer address is bound to (meaningful only when bound).
pub open spec fn spec_bound_sid(st: ServerState, ip: crate::state::IpV4) -> int {
    let k = choose|k: int| 0 <= k < st.ip_index@.len() && st.ip_index@[k].ip == ip;
    st.ip_index@[k].id as int
}

/// Whether a connection from `ip` resumes an existing session: the address
/// is bound to a session whose status is exactly `Disconnected`.
pub open spec fn spec_reconnectable(st: ServerState, ip: crate::state::IpV4) -> bool {
    spec_ip_bound(st, ip) && st.sessions@[spec_bound_sid(st, ip)].status is Disconnected
}

/// A resumed session: no new session appears; the bound session gets the
/// fresh connection back.  A named session's status is recomputed from its
/// own progress and the global status — finished again once every slot is
/// set, else answering where it stood while the quiz runs, else back in
/// the lobby — and it is sent the resume notice (plus, mid-quiz, the
/// question it is on).  A session that never completed a Join returns to
/// awaiting a username and is greeted like a fresh connection.
pub open spec fn connect_resumed(
    pre: ServerState,
    post: ServerState,
    ip: crate::state::IpV4,
    outcome: ConnectOutcome,
    outbox: Seq<(usize, ServerMessage)>,
) -> bool {
    let id = spec_bound_sid(pre, ip);
    let s0 = pre.sessions@[id];
    let s1 = post.sessions@[id];
    let cur = spec_current_index(s0.answers@) as int;
    let qlen = pre.questions@.len() as int;
    let name = s0.username.unwrap()@;
    &&& outcome == ConnectOutcome::Reconnected(id as usize)
    &&& post.sessions@.len() == pre.sessions@.len()
    &&& forall|j: int|
        0 <= j < pre.sessions@.len() && j != id ==> post.sessions@[j] == pre.sessions@[j]
    &&& s1.connected
    &&& s1.username == s0.username
    &&& s1.ip_addr == s0.ip_addr
    &&& s1.answers == s0.answers
    &&& s1.score == s0.score
    &&& s1.finished_at == s0.finished_at
    &&& post.status == pre.status
    &&& post.questions == pre.questions
    &&& post.ip_index == pre.ip_index
    &&& post.banned_ips == pre.banned_ips
    &&& post.current_view == pre.current_view
    &&& post.previous_view == pre.previous_view
    &&& post.command_input == pre.command_input
    &&& post.live_answers == pre.live_answers
    &&& post.should_quit == pre.should_quit
    &&& post.port == pre.port
    &&& if s0.username is Some {
        &&& s1.status == (if cur >= qlen {
            UserStatus::Finished
        } else if pre.status is InProgress {
            UserStatus::Answering(cur as usize)
        } else {
            UserStatus::InLobby
        })
        &&& history_appended(
            pre.command_history@,
            post.command_history@,
            "User "@ + name + " reconnected"@,
        )
        &&& outbox.len() == (if pre.status is InProgress && cur < qlen {
            2int
        } else {
            1int
        })
        &&& outbox[0].0 == id as usize
        &&& (outbox[0].1 matches ServerMessage::ReconnectAccepted { username: u, current_question }
            && u@ == name && current_question == cur)
        &&& (pre.status is InProgress && cur < qlen) ==> outbox[1].0 == id as usize
            && question_message(outbox[1].1, pre.questions@, cur)
    } else {
        &&& s1.status == UserStatus::Connected
        &&& post.command_history == pre.command_history
        &&& outbox.len() == 1
        &&& outbox[0] == (id as usize, ServerMessage::ConnectionAck)
    }
}

/// A fresh session: it is appended to the registry awaiting a username,
/// the address binding now addresses it (replacing any previous binding
/// for that address, which orphans a still-active session from the same
/// address), and it is sent the connection acknowledgement.
pub open spec fn connect_created(
    pre: ServerState,
    post: ServerState,
    ip: crate::state::IpV4,
    outcome: ConnectOutcome,
    outbox: Seq<(usize, ServerMessage)>,
) -> bool {
    let nid = pre.sessions@.len() as int;
    let s1 = post.sessions@[nid];
    &&& outcome == ConnectOutcome::Created(nid as usize)
    &&& post.sessions@.len() == nid + 1
    &&& forall|j: int| 0 <= j < nid ==> post.sessions@[j] == pre.sessions@[j]
    &&& s1.username is None
    &&& s1.ip_addr == ip
    &&& s1.status == UserStatus::Connected
    &&& s1.answers@.len() == 0
    &&& s1.score is None
    &&& s1.finished_at is None
    &&& s1.connected
    &&& post.ip_index@.len() == pre.ip_index@.len() + (if spec_ip_bound(pre, ip) {
        0int
    } else {
        1int
    })
    &&& forall|m: int|
        0 <= m < pre.ip_index@.len() ==> post.ip_index@[m] == (if pre.ip_index@[m].ip == ip {
            (crate::state::IpBinding { ip, id: nid as usize })
        } else {
            pre.ip_index@[m]
        })
    &&& !spec_ip_bound(pre, ip) ==> post.ip_index@.last() == (crate::state::IpBinding {
        ip,
        id: nid as usize,
    })
    &&& post.status == pre.status
    &&& post.questions == pre.questions
    &&& post.banned_ips == pre.banned_ips
    &&& post.current_view == pre.current_view
    &&& post.previous_view == pre.previous_view
    &&& post.command_input == pre.command_input
    &&& post.command_history == pre.command_history
    &&& post.live_answers == pre.live_answers
    &&& post.should_quit == pre.should_quit
    &&& post.port == pre.port
    &&& outbox.len() == 1
    &&& outbox[0] == (nid as usize, ServerMessage::ConnectionAck)
}

/// Handles a new connection from a peer address: a banned address is
/// rejected before any session is created or touched; an address bound to
/// a session whose stored status is exactly `Disconnected` resumes that
/// session, never creating a second one; otherwise a fresh session is
/// created and the address binding is replaced, which orphans any
/// still-active session of the same address.
pub fn handle_connect(state: &mut ServerState, ip: crate::state::IpV4) -> (r: (
    ConnectOutcome,
    Outbox,
))
    requires
        wf(*old(state)),
    ensures
        wf(*final(state)),
        ({
            let (outcome, outbox) = r;
            if old(state).banned_ips@.contains(ip) {
                *final(state) == *old(state) && outcome == ConnectOutcome::Banned && outbox@.len()
                    == 0
            } else if spec_reconnectable(*old(state), ip) {
                connect_resumed(*old(state), *final(state), ip, outcome, outbox@)
            } else {
                connect_created(*old(state), *final(state), ip, outcome, outbox@)
            }
        }),
{
    let mut outbox: Outbox = Vec::new();
    if state.is_banned(ip) {
        return (ConnectOutcome::Banned, outbox);
    }

    let found = state.find_user_by_ip(ip);
    let mut reconnect: Option<usize> = None;
    if let Some(rid) = found {
        if matches!(state.sessions[rid].status, UserStatus::Disconnected) {
            reconnect = Some(rid);
        }
    }

    match reconnect {
        Some(rid) => {
            proof {
                assert(spec_bound_sid(*state, ip) == rid as int);
            }
            let cur = state.sessions[rid].current_question_index();
            let qlen = state.questions.len();
            let in_progress = matches!(state.status, ServerStatus::InProgress);
            let mut sess = UserSession::new(0);
            state.sessions.set_and_swap(rid, &mut sess);
            sess.connected = true;
            let named = sess.username.is_some();
            if named {
                if cur >= qlen {
                    sess.status = UserStatus::Finished;
                } else if in_progress {
                    sess.status = UserStatus::Answering(cur);
                } else {
                    sess.status = UserStatus::InLobby;
                }
            } else {
                sess.status = UserStatus::Connected;
            }
            let name_opt = match &sess.username {
                Some(u) => Some(u.clone()),
                None => None,
            };
            state.sessions.set_and_swap(rid, &mut sess);
            match name_opt {
                Some(name) => {
                    let m = String::from_str("User ").concat(name.as_str()).concat(
                        " reconnected",
                    );
                    state.add_to_history(m);
                    outbox.push(
                        (rid, ServerMessage::ReconnectAccepted {
                            username: name,
                            current_question: cur,
                        }),
                    );
                    if in_progress && cur < qlen {
                        let q = &state.questions[cur];
                        outbox.push(
                            (rid, ServerMessage::Question {
                                index: cur,
                                text: q.text.clone(),
                                code: clone_string_opt(&q.code),
                                options: clone_options(&q.options),
                            }),
                        );
                    }
                },
                None => {
                    outbox.push((rid, ServerMessage::ConnectionAck));
                },
            }
            (ConnectOutcome::Reconnected(rid), outbox)
        },
        None => {
            let nid = state.sessions.len();
            state.sessions.push(UserSession::new(ip));
            update_ip_binding(state, ip, nid);
            outbox.push((nid, ServerMessage::ConnectionAck));
            (ConnectOutcome::Created(nid), outbox)
        },
    }
}

/// Points the binding for `ip` at session `nid`, adding one if the address
/// was unbound.
fn update_ip_binding(state: &mut ServerState, ip: crate::state::IpV4, nid: usize)
    requires
        forall|k1: int, k2: int|
            0 <= k1 < k2 < old(state).ip_index@.len() ==> (#[trigger] old(
                state,
            ).ip_index@[k1]).ip != (#[trigger] old(state).ip_index@[k2]).ip,
    ensures
        final(state).ip_index@.len() == old(state).ip_index@.len() + (if spec_ip_bound(
            *old(state),
            ip,
        ) {
            0int
        } else {
            1int
        }),
        forall|m: int|
            0 <= m < old(state).ip_index@.len() ==> final(state).ip_index@[m] == (if old(
                state,
            ).ip_index@[m].ip == ip {
                (crate::state::IpBinding { ip, id: nid })
            } else {
                old(state).ip_index@[m]
            }),
        !spec_ip_bound(*old(state), ip) ==> final(state).ip_index@.last() == (
        crate::state::IpBinding { ip, id: nid }),
        unchanged_but_ip_index(*old(state), *final(state)),
{
    let mut k: usize = 0;
    let n = state.ip_index.len();
    while k < n
        invariant
            k <= n,
            n == state.ip_index@.len(),
            state.ip_index == old(state).ip_index,
            unchanged_but_ip_index(*old(state), *state),
            forall|k1: int, k2: int|
                0 <= k1 < k2 < state.ip_index@.len() ==> (#[trigger] state.ip_index@[k1]).ip != (
                #[trigger] state.ip_index@[k2]).ip,
            forall|m: int| 0 <= m < k ==> (#[trigger] state.ip_index@[m]).ip != ip,
        decreases n - k,
    {
        if state.ip_index[k].ip == ip {
            let ghost pre = state.ip_index@;
            state.ip_index.set(k, crate::state::IpBinding { ip, id: nid });
            proof {
                assert forall|m: int| 0 <= m < pre.len() && m != k implies pre[m].ip != ip by {
                    if m < k as int {
                    } else {
                        assert(pre[k as int].ip == ip);
                    }
                }
            }
            return ;
        }
        k += 1;
    }
    state.ip_index.push(crate::state::IpBinding { ip, id: nid });
}

/// The two states agree on everything but the address bindings.
pub open spec fn unchanged_but_ip_index(a: ServerState, b: ServerState) -> bool {
    b.status == a.status && b.questions == a.questions && b.sessions == a.sessions && b.banned_ips
        == a.banned_ips && b.current_view == a.current_view && b.previous_view == a.previous_view
        && b.command_input == a.command_input && b.command_history == a.command_history
        && b.live_answers == a.live_answers && b.should_quit == a.should_quit && b.port == a.port
}

} // verus!
