//! The host command interpreter: parsing a typed line into an operation on
//! the server state, and the operations themselves.
//!
//! Every command yields a [`CommandResult`] plus the messages to deliver;
//! the host loop outside appends non-quit results to the message history
//! and performs the sends.

use vstd::prelude::*;

use crate::protocol::ServerMessage;
use crate::question::clone_options;
use crate::question::clone_string_opt;
use crate::question::spec_score;
use crate::handlers::Outbox;
use crate::handlers::question_message;
use crate::state::ServerState;
use crate::state::ServerStatus;
use crate::state::ServerView;
use crate::state::UserSession;
use crate::state::UserStatus;
use crate::state::is_connected_session;
use crate::state::is_finished_session;
use crate::state::is_named;
use crate::state::lb_entries_match;
use crate::state::lb_order_ok;
use crate::state::matching_ids;
use crate::state::spec_name_taken;
use crate::state::spec_named_count;
use crate::state::spec_score_of;
use crate::state::wf;
use crate::strutil::dec_rep;
use crate::strutil::usize_to_string;

verus! {

/// Result of executing a host command.
#[derive(Debug, Clone, PartialEq)]
pub enum CommandResult {
    /// Command executed successfully, with an optional message for the
    /// host display.
    Success(Option<String>),
    /// Command failed, with an error message for the host display.
    Error(String),
    /// The server should quit.
    Quit,
}

/// Whether the session receives broadcasts: named and actively connected.
pub open spec fn spec_broadcast_target(s: UserSession) -> bool {
    is_named(s) && is_connected_session(s)
}

/// Whether the session is still playing (or idling) with a live
/// connection: not finished, actively connected.
pub open spec fn spec_unfinished_connected(s: UserSession) -> bool {
    !is_finished_session(s) && is_connected_session(s)
}

/// The session's username characters (meaningful only when named).
pub open spec fn name_of(s: UserSession) -> Seq<char> {
    s.username.unwrap()@
}

/// Collects the identities of the sessions that receive broadcasts.
fn collect_broadcast_targets(state: &ServerState) -> (ids: Vec<usize>)
    ensures
        ids@ == matching_ids(
            state.sessions@,
            (|s: UserSession| spec_broadcast_target(s)),
            state.sessions@.len() as int,
        ),
        forall|k: int| 0 <= k < ids@.len() ==> (#[trigger] ids@[k]) < state.sessions@.len(),
{
    let n = state.sessions.len();
    let mut ids: Vec<usize> = Vec::new();
    let mut i: usize = 0;
    while i < n
        invariant
            i <= n,
            n == state.sessions@.len(),
            ids@ == matching_ids(
                state.sessions@,
                (|s: UserSession| spec_broadcast_target(s)),
                i as int,
            ),
            forall|k: int| 0 <= k < ids@.len() ==> (#[trigger] ids@[k]) < i,
        decreases n - i,
    {
        if state.sessions[i].username.is_some() && state.sessions[i].is_connected() {
            ids.push(i);
        }
        i += 1;
    }
    ids
}

/// Collects the identities of the finished sessions.
fn collect_finished_ids(state: &ServerState) -> (ids: Vec<usize>)
    ensures
        ids@ == matching_ids(
            state.sessions@,
            (|s: UserSession| is_finished_session(s)),
            state.sessions@.len() as int,
        ),
        forall|k: int| 0 <= k < ids@.len() ==> (#[trigger] ids@[k]) < state.sessions@.len(),
{
    let n = state.sessions.len();
    let mut ids: Vec<usize> = Vec::new();
    let mut i: usize = 0;
    while i < n
        invariant
            i <= n,
            n == state.sessions@.len(),
            ids@ == matching_ids(
                state.sessions@,
                (|s: UserSession| is_finished_session(s)),
                i as int,
            ),
            forall|k: int| 0 <= k < ids@.len() ==> (#[trigger] ids@[k]) < i,
        decreases n - i,
    {
        if state.sessions[i].is_finished() {
            ids.push(i);
        }
        i += 1;
    }
    ids
}

/// Collects the identities of the sessions that are connected but not
/// finished.
fn collect_unfinished_connected(state: &ServerState) -> (ids: Vec<usize>)
    ensures
        ids@ == matching_ids(
            state.sessions@,
            (|s: UserSession| spec_unfinished_connected(s)),
            state.sessions@.len() as int,
        ),
        forall|k: int| 0 <= k < ids@.len() ==> (#[trigger] ids@[k]) < state.sessions@.len(),
{
    let n = state.sessions.len();
    let mut ids: Vec<usize> = Vec::new();
    let mut i: usize = 0;
    while i < n
        invariant
            i <= n,
            n == state.sessions@.len(),
            ids@ == matching_ids(
                state.sessions@,
                (|s: UserSession| spec_unfinished_connected(s)),
                i as int,
            ),
            forall|k: int| 0 <= k < ids@.len() ==> (#[trigger] ids@[k]) < i,
        decreases n - i,
    {
        if !state.sessions[i].is_finished() && state.sessions[i].is_connected() {
            ids.push(i);
        }
        i += 1;
    }
    ids
}

/// Collects the identities of every actively connected session, named or
/// not.
fn collect_connected_ids(state: &ServerState) -> (ids: Vec<usize>)
    ensures
        ids@ == matching_ids(
            state.sessions@,
            (|s: UserSession| is_connected_session(s)),
            state.sessions@.len() as int,
        ),
        forall|k: int| 0 <= k < ids@.len() ==> (#[trigger] ids@[k]) < state.sessions@.len(),
{
    let n = state.sessions.len();
    let mut ids: Vec<usize> = Vec::new();
    let mut i: usize = 0;
    while i < n
        invariant
            i <= n,
            n == state.sessions@.len(),
            ids@ == matching_ids(
                state.sessions@,
                (|s: UserSession| is_connected_session(s)),
                i as int,
            ),
            forall|k: int| 0 <= k < ids@.len() ==> (#[trigger] ids@[k]) < i,
        decreases n - i,
    {
        if state.sessions[i].is_connected() {
            ids.push(i);
        }
        i += 1;
    }
    ids
}

/// The two states agree on every field `start` leaves alone.
pub open spec fn start_frame(pre: ServerState, post: ServerState) -> bool {
    &&& post.questions == pre.questions
    &&& post.ip_index == pre.ip_index
    &&& post.banned_ips == pre.banned_ips
    &&& post.previous_view == pre.previous_view
    &&& post.command_input == pre.command_input
    &&& post.command_history == pre.command_history
    &&& post.live_answers == pre.live_answers
    &&& post.should_quit == pre.should_quit
    &&& post.port == pre.port
}

/// A started quiz: the server is in progress with the host watching the
/// analytics view; every named lobby session got a full answer list and is
/// answering question zero; every broadcast target is sent the quiz start
/// and then, when there are questions, question zero.
pub open spec fn start_applied(
    pre: ServerState,
    post: ServerState,
    outbox: Seq<(usize, ServerMessage)>,
) -> bool {
    let qlen = pre.questions@.len() as int;
    let targets = matching_ids(
        post.sessions@,
        (|s: UserSession| spec_broadcast_target(s)),
        post.sessions@.len() as int,
    );
    &&& start_frame(pre, post)
    &&& post.status == ServerStatus::InProgress
    &&& post.current_view == ServerView::Analytics
    &&& post.sessions@.len() == pre.sessions@.len()
    &&& forall|j: int|
        0 <= j < pre.sessions@.len() ==> if is_named(#[trigger] pre.sessions@[j])
            && pre.sessions@[j].status is InLobby {
            let s0 = pre.sessions@[j];
            let s1 = post.sessions@[j];
            &&& s1.status == UserStatus::Answering(0)
            &&& s1.answers@.len() == qlen
            &&& (forall|k: int| 0 <= k < qlen ==> s1.answers@[k] is None)
            &&& s1.username == s0.username
            &&& s1.ip_addr == s0.ip_addr
            &&& s1.score == s0.score
            &&& s1.finished_at == s0.finished_at
            &&& s1.connected == s0.connected
        } else {
            post.sessions@[j] == pre.sessions@[j]
        }
    &&& outbox.len() == targets.len() * (if qlen > 0 {
        2int
    } else {
        1int
    })
    &&& forall|k: int|
        0 <= k < targets.len() ==> (#[trigger] outbox[k]).0 == targets[k] && (outbox[k].1 matches
        ServerMessage::QuizStart { total_questions } && total_questions == qlen)
    &&& qlen > 0 ==> forall|k: int|
        0 <= k < targets.len() ==> (#[trigger] outbox[targets.len() + k]).0 == targets[k]
            && question_message(outbox[targets.len() + k].1, pre.questions@, 0)
}

/// The full contract of the `start` command.
pub open spec fn start_spec(
    pre: ServerState,
    post: ServerState,
    res: CommandResult,
    outbox: Seq<(usize, ServerMessage)>,
) -> bool {
    if !(pre.status is Lobby) {
        &&& post == pre
        &&& outbox.len() == 0
        &&& (res matches CommandResult::Error(m) && m@ == "Quiz has already started."@)
    } else if spec_named_count(pre.sessions@) == 0 {
        &&& post == pre
        &&& outbox.len() == 0
        &&& (res matches CommandResult::Error(m) && m@ == "No users have joined yet."@)
    } else {
        &&& start_applied(pre, post, outbox)
        &&& (res matches CommandResult::Success(om) && om matches Some(m) && m@
            == "Quiz started with "@ + dec_rep(spec_named_count(pre.sessions@)) + " users!"@)
    }
}

/// Starts the quiz: refused while it is not in the lobby or while no
/// session has a username, with the state untouched either way; otherwise
/// every named lobby session starts answering and the start is announced.
pub fn cmd_start(state: &mut ServerState) -> (r: (CommandResult, Outbox))
    requires
        wf(*old(state)),
    ensures
        wf(*final(state)),
        start_spec(*old(state), *final(state), r.0, r.1@),
{
    if !matches!(state.status, ServerStatus::Lobby) {
        return (
            CommandResult::Error(String::from_str("Quiz has already started.")),
            Vec::new(),
        );
    }
    let named = state.named_user_count();
    if named == 0 {
        return (
            CommandResult::Error(String::from_str("No users have joined yet.")),
            Vec::new(),
        );
    }

    let qlen = state.questions.len();
    let n = state.sessions.len();
    let mut i: usize = 0;
    while i < n
        invariant
            i <= n,
            n == state.sessions@.len(),
            state.sessions@.len() == old(state).sessions@.len(),
            qlen == state.questions@.len(),
            state.status == old(state).status,
            state.questions == old(state).questions,
            state.ip_index == old(state).ip_index,
            state.banned_ips == old(state).banned_ips,
            state.current_view == old(state).current_view,
            state.previous_view == old(state).previous_view,
            state.command_input == old(state).command_input,
            state.command_history == old(state).command_history,
            state.live_answers == old(state).live_answers,
            state.should_quit == old(state).should_quit,
            state.port == old(state).port,
            wf(*old(state)),
            forall|j: int|
                i <= j < n ==> state.sessions@[j] == old(state).sessions@[j],
            forall|j: int|
                0 <= j < i ==> if is_named(#[trigger] old(state).sessions@[j]) && old(
                    state,
                ).sessions@[j].status is InLobby {
                    let s0 = old(state).sessions@[j];
                    let s1 = state.sessions@[j];
                    &&& s1.status == UserStatus::Answering(0)
                    &&& s1.answers@.len() == qlen
                    &&& (forall|k: int| 0 <= k < qlen ==> s1.answers@[k] is None)
                    &&& s1.username == s0.username
                    &&& s1.ip_addr == s0.ip_addr
                    &&& s1.score == s0.score
                    &&& s1.finished_at == s0.finished_at
                    &&& s1.connected == s0.connected
                } else {
                    state.sessions@[j] == old(state).sessions@[j]
                },
        decreases n - i,
    {
        let eligible = state.sessions[i].username.is_some() && matches!(
            state.sessions[i].status,
            UserStatus::InLobby,
        );
        if eligible {
            let mut sess = UserSession::new(0);
            state.sessions.set_and_swap(i, &mut sess);
            sess.init_answers(qlen);
            sess.status = UserStatus::Answering(0);
            state.sessions.set_and_swap(i, &mut sess);
        }
        i += 1;
    }
    state.status = ServerStatus::InProgress;
    state.current_view = ServerView::Analytics;
    proof {
        let pre = old(state).sessions@;
        let post = state.sessions@;
        assert forall|j: int|
            0 <= j < post.len() implies (#[trigger] post[j]).username == pre[j].username && post[
            j].ip_addr == pre[j].ip_addr by {
            if is_named(pre[j]) && pre[j].status is InLobby {
            } else {
                assert(post[j] == pre[j]);
            }
        }
    }

    let targets = collect_broadcast_targets(state);
    let mut outbox: Outbox = Vec::new();
    let mut t: usize = 0;
    while t < targets.len()
        invariant
            t <= targets@.len(),
            qlen == state.questions@.len(),
            forall|k: int| 0 <= k < targets@.len() ==> (#[trigger] targets@[k]) < state.sessions@.len(),
            outbox@.len() == t,
            forall|k: int|
                0 <= k < t ==> (#[trigger] outbox@[k]).0 == targets@[k] && (outbox@[k].1 matches
                ServerMessage::QuizStart { total_questions } && total_questions == qlen),
        decreases targets@.len() - t,
    {
        outbox.push((targets[t], ServerMessage::QuizStart { total_questions: qlen }));
        t += 1;
    }
    if qlen > 0 {
        let mut t2: usize = 0;
        while t2 < targets.len()
            invariant
                t2 <= targets@.len(),
                qlen == state.questions@.len(),
                qlen > 0,
                state.questions == old(state).questions,
                forall|k: int|
                    0 <= k < targets@.len() ==> (#[trigger] targets@[k]) < state.sessions@.len(),
                outbox@.len() == targets@.len() + t2,
                forall|k: int|
                    0 <= k < targets@.len() ==> (#[trigger] outbox@[k]).0 == targets@[k] && (
                    outbox@[k].1 matches ServerMessage::QuizStart { total_questions }
                        && total_questions == qlen),
                forall|k: int|
                    0 <= k < t2 ==> (#[trigger] outbox@[targets@.len() + k]).0 == targets@[k]
                        && question_message(
                        outbox@[targets@.len() + k].1,
                        old(state).questions@,
                        0,
                    ),
            decreases targets@.len() - t2,
        {
            let q = &state.questions[0];
            outbox.push(
                (targets[t2], ServerMessage::Question {
                    index: 0,
                    text: q.text.clone(),
                    code: clone_string_opt(&q.code),
                    options: clone_options(&q.options),
                }),
            );
            t2 += 1;
        }
    }
    let m = String::from_str("Quiz started with ").concat(usize_to_string(named).as_str()).concat(
        " users!",
    );
    (CommandResult::Success(Some(m)), outbox)
}

/// The two states agree on every field `stop` leaves alone.
pub open spec fn stop_frame(pre: ServerState, post: ServerState) -> bool {
    &&& post.questions == pre.questions
    &&& post.ip_index == pre.ip_index
    &&& post.banned_ips == pre.banned_ips
    &&& post.current_view == pre.current_view
    &&& post.previous_view == pre.previous_view
    &&& post.command_input == pre.command_input
    &&& post.command_history == pre.command_history
    &&& post.live_answers == pre.live_answers
    &&& post.should_quit == pre.should_quit
    &&& post.port == pre.port
}

/// A stopped quiz: the server is finished; every finished session has its
/// score recomputed and receives the full results with a fresh
/// leaderboard; every other connected session is told the host ended the
/// quiz.
pub open spec fn stop_applied(
    pre: ServerState,
    post: ServerState,
    outbox: Seq<(usize, ServerMessage)>,
) -> bool {
    let qlen = pre.questions@.len() as int;
    let fin = matching_ids(
        post.sessions@,
        (|s: UserSession| is_finished_session(s)),
        post.sessions@.len() as int,
    );
    let rest = matching_ids(
        post.sessions@,
        (|s: UserSession| spec_unfinished_connected(s)),
        post.sessions@.len() as int,
    );
    &&& stop_frame(pre, post)
    &&& post.status == ServerStatus::Finished
    &&& post.sessions@.len() == pre.sessions@.len()
    &&& forall|j: int|
        0 <= j < pre.sessions@.len() ==> if is_finished_session(#[trigger] pre.sessions@[j]) {
            let s0 = pre.sessions@[j];
            let s1 = post.sessions@[j];
            &&& s1.score == Some(spec_score(s0.answers@, pre.questions@) as usize)
            &&& s1.username == s0.username
            &&& s1.ip_addr == s0.ip_addr
            &&& s1.status == s0.status
            &&& s1.answers == s0.answers
            &&& s1.finished_at == s0.finished_at
            &&& s1.connected == s0.connected
        } else {
            post.sessions@[j] == pre.sessions@[j]
        }
    &&& outbox.len() == fin.len() + rest.len()
    &&& forall|k: int|
        0 <= k < fin.len() ==> (#[trigger] outbox[k]).0 == fin[k] && (outbox[k].1 matches
        ServerMessage::QuizResults { score, total, answers, leaderboard } && score == spec_score_of(
            post.sessions@[fin[k] as int],
        ) && total == qlen && answers@ == crate::state::spec_answer_results(
            post.sessions@[fin[k] as int].answers@,
            pre.questions@,
            post.sessions@[fin[k] as int].answers@.len() as int,
        ) && (exists|ids: Seq<usize>|
            #[trigger] lb_order_ok(post.sessions@, ids) && lb_entries_match(
                post.sessions@,
                qlen,
                name_of(post.sessions@[fin[k] as int]),
                ids,
                leaderboard@,
            )))
    &&& forall|k: int|
        0 <= k < rest.len() ==> (#[trigger] outbox[fin.len() + k]) == (
            rest[k],
            ServerMessage::HostEndedQuiz,
        )
}

/// The full contract of the `stop` command.
pub open spec fn stop_spec(
    pre: ServerState,
    post: ServerState,
    res: CommandResult,
    outbox: Seq<(usize, ServerMessage)>,
) -> bool {
    if !(pre.status is InProgress) {
        &&& post == pre
        &&& outbox.len() == 0
        &&& (res matches CommandResult::Error(m) && m@ == "Quiz is not in progress."@)
    } else {
        &&& stop_applied(pre, post, outbox)
        &&& (res matches CommandResult::Success(om) && om matches Some(m) && m@
            == "Quiz stopped. Results sent to finished users."@)
    }
}

/// Stops the quiz: refused unless it is in progress, with the state
/// untouched; otherwise the server moves to finished exactly once, results
/// go to every finished session and a notice to every other connected one.
pub fn cmd_stop(state: &mut ServerState) -> (r: (CommandResult, Outbox))
    requires
        wf(*old(state)),
    ensures
        wf(*final(state)),
        stop_spec(*old(state), *final(state), r.0, r.1@),
{
    if !matches!(state.status, ServerStatus::InProgress) {
        return (CommandResult::Error(String::from_str("Quiz is not in progress.")), Vec::new());
    }
    state.status = ServerStatus::Finished;

    let qlen = state.questions.len();
    let n = state.sessions.len();
    let mut i: usize = 0;
    while i < n
        invariant
            i <= n,
            n == state.sessions@.len(),
            state.sessions@.len() == old(state).sessions@.len(),
            qlen == state.questions@.len(),
            state.status == ServerStatus::Finished,
            state.questions == old(state).questions,
            state.ip_index == old(state).ip_index,
            state.banned_ips == old(state).banned_ips,
            state.current_view == old(state).current_view,
            state.previous_view == old(state).previous_view,
            state.command_input == old(state).command_input,
            state.command_history == old(state).command_history,
            state.live_answers == old(state).live_answers,
            state.should_quit == old(state).should_quit,
            state.port == old(state).port,
            wf(*old(state)),
            forall|j: int| i <= j < n ==> state.sessions@[j] == old(state).sessions@[j],
            forall|j: int|
                0 <= j < i ==> if is_finished_session(#[trigger] old(state).sessions@[j]) {
                    let s0 = old(state).sessions@[j];
                    let s1 = state.sessions@[j];
                    &&& s1.score == Some(spec_score(s0.answers@, old(state).questions@) as usize)
                    &&& s1.username == s0.username
                    &&& s1.ip_addr == s0.ip_addr
                    &&& s1.status == s0.status
                    &&& s1.answers == s0.answers
                    &&& s1.finished_at == s0.finished_at
                    &&& s1.connected == s0.connected
                } else {
                    state.sessions@[j] == old(state).sessions@[j]
                },
        decreases n - i,
    {
        if state.sessions[i].is_finished() {
            let mut sess = UserSession::new(0);
            state.sessions.set_and_swap(i, &mut sess);
            let score = sess.calculate_score(&state.questions);
            sess.score = Some(score);
            state.sessions.set_and_swap(i, &mut sess);
        }
        i += 1;
    }
    proof {
        let pre = old(state).sessions@;
        let post = state.sessions@;
        assert forall|j: int|
            0 <= j < post.len() implies (#[trigger] post[j]).username == pre[j].username && post[
            j].ip_addr == pre[j].ip_addr && post[j].status == pre[j].status && post[j].answers
            == pre[j].answers by {
            if is_finished_session(pre[j]) {
            } else {
                assert(post[j] == pre[j]);
            }
        }
    }

    let fin = collect_finished_ids(state);
    proof {
        crate::state::lemma_matching_ids_props(
            state.sessions@,
            (|s: UserSession| is_finished_session(s)),
            state.sessions@.len() as int,
        );
    }
    let mut outbox: Outbox = Vec::new();
    let mut k: usize = 0;
    while k < fin.len()
        invariant
            k <= fin@.len(),
            qlen == state.questions@.len(),
            state.questions == old(state).questions,
            wf(*state),
            fin@ == matching_ids(
                state.sessions@,
                (|s: UserSession| is_finished_session(s)),
                state.sessions@.len() as int,
            ),
            forall|m: int| 0 <= m < fin@.len() ==> (#[trigger] fin@[m]) < state.sessions@.len(),
            forall|m: int|
                0 <= m < fin@.len() ==> is_finished_session(state.sessions@[fin@[m] as int]),
            outbox@.len() == k,
            forall|m: int|
                0 <= m < k ==> (#[trigger] outbox@[m]).0 == fin@[m] && (outbox@[m].1 matches
                ServerMessage::QuizResults { score, total, answers, leaderboard } && score
                    == spec_score_of(state.sessions@[fin@[m] as int]) && total == qlen && answers@
                    == crate::state::spec_answer_results(
                    state.sessions@[fin@[m] as int].answers@,
                    state.questions@,
                    state.sessions@[fin@[m] as int].answers@.len() as int,
                ) && (exists|ids: Seq<usize>|
                    #[trigger] lb_order_ok(state.sessions@, ids) && lb_entries_match(
                        state.sessions@,
                        qlen as int,
                        name_of(state.sessions@[fin@[m] as int]),
                        ids,
                        leaderboard@,
                    ))),
        decreases fin@.len() - k,
    {
        let fid = fin[k];
        let name = match &state.sessions[fid].username {
            Some(u) => u.clone(),
            None => {
                proof {
                    assert(false);
                }
                String::new()
            },
        };
        let results = state.generate_answer_results(&state.sessions[fid]);
        let leaderboard = state.generate_leaderboard(name.as_str());
        let score = match state.sessions[fid].score {
            Some(v) => v,
            None => 0,
        };
        outbox.push(
            (fid, ServerMessage::QuizResults { score, total: qlen, answers: results, leaderboard }),
        );
        k += 1;
    }

    let rest = collect_unfinished_connected(state);
    let mut k2: usize = 0;
    while k2 < rest.len()
        invariant
            k2 <= rest@.len(),
            qlen == state.questions@.len(),
            outbox@.len() == fin@.len() + k2,
            forall|m: int|
                0 <= m < fin@.len() ==> (#[trigger] outbox@[m]).0 == fin@[m] && (outbox@[m].1
                    matches ServerMessage::QuizResults { score, total, answers, leaderboard }
                    && score == spec_score_of(state.sessions@[fin@[m] as int]) && total == qlen
                    && answers@ == crate::state::spec_answer_results(
                    state.sessions@[fin@[m] as int].answers@,
                    state.questions@,
                    state.sessions@[fin@[m] as int].answers@.len() as int,
                ) && (exists|ids: Seq<usize>|
                    #[trigger] lb_order_ok(state.sessions@, ids) && lb_entries_match(
                        state.sessions@,
                        qlen as int,
                        name_of(state.sessions@[fin@[m] as int]),
                        ids,
                        leaderboard@,
                    ))),
            forall|m: int|
                0 <= m < k2 ==> (#[trigger] outbox@[fin@.len() + m]) == (
                    rest@[m],
                    ServerMessage::HostEndedQuiz,
                ),
        decreases rest@.len() - k2,
    {
        outbox.push((rest[k2], ServerMessage::HostEndedQuiz));
        k2 += 1;
    }

    (
        CommandResult::Success(
            Some(String::from_str("Quiz stopped. Results sent to finished users.")),
        ),
        outbox,
    )
}

/// The full contract of the `quit` (or `exit`) command.
pub open spec fn quit_spec(
    pre: ServerState,
    post: ServerState,
    res: CommandResult,
    outbox: Seq<(usize, ServerMessage)>,
) -> bool {
    let targets = matching_ids(
        pre.sessions@,
        (|s: UserSession| is_connected_session(s)),
        pre.sessions@.len() as int,
    );
    &&& post.should_quit
    &&& post.status == pre.status
    &&& post.questions == pre.questions
    &&& post.sessions == pre.sessions
    &&& post.ip_index == pre.ip_index
    &&& post.banned_ips == pre.banned_ips
    &&& post.current_view == pre.current_view
    &&& post.previous_view == pre.previous_view
    &&& post.command_input == pre.command_input
    &&& post.command_history == pre.command_history
    &&& post.live_answers == pre.live_answers
    &&& post.port == pre.port
    &&& res is Quit
    &&& outbox.len() == targets.len()
    &&& forall|m: int|
        0 <= m < targets.len() ==> (#[trigger] outbox[m]) == (
            targets[m],
            ServerMessage::HostEndedQuiz,
        )
}

/// Quits the server: every connected session, named or not, is told the
/// host ended the quiz, and the shutdown flag is raised.
pub fn cmd_quit(state: &mut ServerState) -> (r: (CommandResult, Outbox))
    requires
        wf(*old(state)),
    ensures
        wf(*final(state)),
        quit_spec(*old(state), *final(state), r.0, r.1@),
{
    let targets = collect_connected_ids(state);
    let mut outbox: Outbox = Vec::new();
    let mut k: usize = 0;
    while k < targets.len()
        invariant
            k <= targets@.len(),
            outbox@.len() == k,
            forall|m: int|
                0 <= m < k ==> (#[trigger] outbox@[m]) == (
                    targets@[m],
                    ServerMessage::HostEndedQuiz,
                ),
        decreases targets@.len() - k,
    {
        outbox.push((targets[k], ServerMessage::HostEndedQuiz));
        k += 1;
    }
    state.should_quit = true;
    (CommandResult::Quit, outbox)
}

/// The position of the session carrying this username (meaningful only
/// when the name is taken; well defined then, since usernames are unique).
pub open spec fn spec_user_id(ss: Seq<UserSession>, name: Seq<char>) -> int {
    choose|i: int|
        0 <= i < ss.len() && (#[trigger] ss[i].username matches Some(u) && u@ == name)
}

/// The full contract of the `kick` command: the named session is told it
/// was kicked, loses its connection and becomes disconnected.
pub open spec fn kick_spec(
    pre: ServerState,
    post: ServerState,
    res: CommandResult,
    outbox: Seq<(usize, ServerMessage)>,
    args: Seq<Seq<char>>,
) -> bool {
    if args.len() == 0 {
        &&& post == pre
        &&& outbox.len() == 0
        &&& (res matches CommandResult::Error(m) && m@ == "Usage: kick <username>"@)
    } else if !spec_name_taken(pre.sessions@, args[0]) {
        &&& post == pre
        &&& outbox.len() == 0
        &&& (res matches CommandResult::Error(m) && m@ == "User not found: "@ + args[0])
    } else {
        let uid = spec_user_id(pre.sessions@, args[0]);
        let s0 = pre.sessions@[uid];
        let s1 = post.sessions@[uid];
        &&& post.sessions@.len() == pre.sessions@.len()
        &&& forall|j: int|
            0 <= j < pre.sessions@.len() && j != uid ==> post.sessions@[j] == pre.sessions@[j]
        &&& !s1.connected
        &&& s1.status == UserStatus::Disconnected
        &&& s1.username == s0.username
        &&& s1.ip_addr == s0.ip_addr
        &&& s1.answers == s0.answers
        &&& s1.score == s0.score
        &&& s1.finished_at == s0.finished_at
        &&& post.status == pre.status
        &&& post.questions == pre.questions
        &&& post.ip_index == pre.ip_index
        &&& post.banned_ips == pre.banned_ips
        &&& post.current_view == pre.current_view
        &&& post.previous_view == pre.previous_view
        &&& post.command_input == pre.command_input
        &&& post.command_history == pre.command_history
        &&& post.live_answers == pre.live_answers
        &&& post.should_quit == pre.should_quit
        &&& post.port == pre.port
        &&& outbox.len() == 1
        &&& outbox[0].0 == uid as usize
        &&& (outbox[0].1 matches ServerMessage::Kicked { reason } && reason@ == "Kicked by host"@)
        &&& (res matches CommandResult::Success(om) && om matches Some(m) && m@
            == "Kicked user: "@ + args[0])
    }
}

/// The full contract of the `ban` command: the kick effect, plus the
/// session's address joins the ban set.
pub open spec fn ban_spec(
    pre: ServerState,
    post: ServerState,
    res: CommandResult,
    outbox: Seq<(usize, ServerMessage)>,
    args: Seq<Seq<char>>,
) -> bool {
    if args.len() == 0 {
        &&& post == pre
        &&& outbox.len() == 0
        &&& (res matches CommandResult::Error(m) && m@ == "Usage: ban <username>"@)
    } else if !spec_name_taken(pre.sessions@, args[0]) {
        &&& post == pre
        &&& outbox.len() == 0
        &&& (res matches CommandResult::Error(m) && m@ == "User not found: "@ + args[0])
    } else {
        let uid = spec_user_id(pre.sessions@, args[0]);
        let s0 = pre.sessions@[uid];
        let s1 = post.sessions@[uid];
        &&& post.sessions@.len() == pre.sessions@.len()
        &&& forall|j: int|
            0 <= j < pre.sessions@.len() && j != uid ==> post.sessions@[j] == pre.sessions@[j]
        &&& !s1.connected
        &&& s1.status == UserStatus::Disconnected
        &&& s1.username == s0.username
        &&& s1.ip_addr == s0.ip_addr
        &&& s1.answers == s0.answers
        &&& s1.score == s0.score
        &&& s1.finished_at == s0.finished_at
        &&& post.banned_ips@ == (if pre.banned_ips@.contains(s0.ip_addr) {
            pre.banned_ips@
        } else {
            pre.banned_ips@.push(s0.ip_addr)
        })
        &&& post.status == pre.status
        &&& post.questions == pre.questions
        &&& post.ip_index == pre.ip_index
        &&& post.current_view == pre.current_view
        &&& post.previous_view == pre.previous_view
        &&& post.command_input == pre.command_input
        &&& post.command_history == pre.command_history
        &&& post.live_answers == pre.live_answers
        &&& post.should_quit == pre.should_quit
        &&& post.port == pre.port
        &&& outbox.len() == 1
        &&& outbox[0].0 == uid as usize
        &&& (outbox[0].1 matches ServerMessage::Kicked { reason } && reason@ == "Banned by host"@)
        &&& (res matches CommandResult::Success(om) && om matches Some(m) && m@
            == "Banned user: "@ + args[0] + " (IP: "@ + crate::ip::ip_rep(s0.ip_addr) + ")"@)
    }
}

/// The full contract of the `unban` command: a dotted-quad argument that
/// is in the ban set leaves it; anything else is an error.
pub open spec fn unban_spec(
    pre: ServerState,
    post: ServerState,
    res: CommandResult,
    outbox: Seq<(usize, ServerMessage)>,
    args: Seq<Seq<char>>,
) -> bool {
    if args.len() == 0 {
        &&& post == pre
        &&& outbox.len() == 0
        &&& (res matches CommandResult::Error(m) && m@ == "Usage: unban <ip>"@)
    } else if !crate::ip::spec_valid_ipv4(args[0]) {
        &&& post == pre
        &&& outbox.len() == 0
        &&& (res matches CommandResult::Error(m) && m@ == "Invalid IP address: "@ + args[0])
    } else {
        forall|a: int, b: int, c: int|
            #[trigger] crate::ip::ipv4_split(args[0], a, b, c) ==> {
                let v = crate::ip::ipv4_value(args[0], a, b, c) as crate::state::IpV4;
                if pre.banned_ips@.contains(v) {
                    &&& (exists|k: int|
                        0 <= k < pre.banned_ips@.len() && pre.banned_ips@[k] == v
                            && post.banned_ips@ == pre.banned_ips@.remove(k))
                    &&& post.status == pre.status
                    &&& post.questions == pre.questions
                    &&& post.sessions == pre.sessions
                    &&& post.ip_index == pre.ip_index
                    &&& post.current_view == pre.current_view
                    &&& post.previous_view == pre.previous_view
                    &&& post.command_input == pre.command_input
                    &&& post.command_history == pre.command_history
                    &&& post.live_answers == pre.live_answers
                    &&& post.should_quit == pre.should_quit
                    &&& post.port == pre.port
                    &&& outbox.len() == 0
                    &&& (res matches CommandResult::Success(om) && om matches Some(m) && m@
                        == "Unbanned IP: "@ + crate::ip::ip_rep(v))
                } else {
                    &&& post == pre
                    &&& outbox.len() == 0
                    &&& (res matches CommandResult::Error(m) && m@ == "IP not in ban list: "@
                        + crate::ip::ip_rep(v))
                }
            }
    }
}

/// The full contract of the `view` command: it changes only the host's
/// display focus and never sends a message.
pub open spec fn view_spec(
    pre: ServerState,
    post: ServerState,
    res: CommandResult,
    outbox: Seq<(usize, ServerMessage)>,
    args: Seq<Seq<char>>,
) -> bool {
    &&& outbox.len() == 0
    &&& if args.len() == 0 || crate::strutil::str_ieq(args[0], "all"@) {
        &&& post.current_view == ServerView::Analytics
        &&& view_frame(pre, post)
        &&& (res matches CommandResult::Success(om) && om matches Some(m) && m@
            == "Viewing all users."@)
    } else if spec_name_taken(pre.sessions@, args[0]) {
        &&& (post.current_view matches ServerView::UserDetail(u) && u@ == args[0])
        &&& view_frame(pre, post)
        &&& (res matches CommandResult::Success(om) && om matches Some(m) && m@
            == "Viewing user: "@ + args[0])
    } else {
        &&& post == pre
        &&& (res matches CommandResult::Error(m) && m@ == "User not found: "@ + args[0])
    }
}

/// The two states agree on everything but the host's current view.
pub open spec fn view_frame(pre: ServerState, post: ServerState) -> bool {
    &&& post.status == pre.status
    &&& post.questions == pre.questions
    &&& post.sessions == pre.sessions
    &&& post.ip_index == pre.ip_index
    &&& post.banned_ips == pre.banned_ips
    &&& post.previous_view == pre.previous_view
    &&& post.command_input == pre.command_input
    &&& post.command_history == pre.command_history
    &&& post.live_answers == pre.live_answers
    &&& post.should_quit == pre.should_quit
    &&& post.port == pre.port
}

/// The dotted-quad texts of the banned addresses, in ban order.
pub open spec fn ip_reps(banned: Seq<crate::state::IpV4>, n: int) -> Seq<Seq<char>>
    decreases n,
{
    if n <= 0 {
        Seq::empty()
    } else {
        ip_reps(banned, n - 1).push(crate::ip::ip_rep(banned[n - 1]))
    }
}

/// The status word shown for a session in the host's list.
pub open spec fn status_label(st: UserStatus) -> Seq<char> {
    match st {
        UserStatus::InLobby => "lobby"@,
        UserStatus::Answering(k) => "Q"@ + dec_rep((k + 1) as nat),
        UserStatus::Finished => "done"@,
        UserStatus::Disconnected => "disconnected"@,
        UserStatus::Connected => "connecting"@,
    }
}

/// The `name (status)` labels of the named sessions, in creation order.
pub open spec fn user_labels(ss: Seq<UserSession>, n: int) -> Seq<Seq<char>>
    decreases n,
{
    if n <= 0 {
        Seq::empty()
    } else {
        let rest = user_labels(ss, n - 1);
        if ss[n - 1].username is Some {
            rest.push(name_of(ss[n - 1]) + " ("@ + status_label(ss[n - 1].status) + ")"@)
        } else {
            rest
        }
    }
}

/// The full contract of the `list` command: a read-only enumeration of the
/// named sessions, or of the banned addresses.
pub open spec fn list_spec(
    pre: ServerState,
    post: ServerState,
    res: CommandResult,
    outbox: Seq<(usize, ServerMessage)>,
    args: Seq<Seq<char>>,
) -> bool {
    &&& post == pre
    &&& outbox.len() == 0
    &&& if args.len() > 0 && crate::strutil::str_ieq(args[0], "bans"@) {
        if pre.banned_ips@.len() == 0 {
            res matches CommandResult::Success(om) && om matches Some(m) && m@
                == "No banned IPs."@
        } else {
            res matches CommandResult::Success(om) && om matches Some(m) && m@ == "Banned IPs: "@
                + crate::strutil::join_comma_spec(
                ip_reps(pre.banned_ips@, pre.banned_ips@.len() as int),
            )
        }
    } else {
        let labels = user_labels(pre.sessions@, pre.sessions@.len() as int);
        if labels.len() == 0 {
            res matches CommandResult::Success(om) && om matches Some(m) && m@
                == "No users connected."@
        } else {
            res matches CommandResult::Success(om) && om matches Some(m) && m@ == "Users: "@
                + crate::strutil::join_comma_spec(labels)
        }
    }
}

/// Disconnects a named session at the host's request.
pub fn cmd_kick(state: &mut ServerState, args: &Vec<String>) -> (r: (CommandResult, Outbox))
    requires
        wf(*old(state)),
    ensures
        wf(*final(state)),
        kick_spec(*old(state), *final(state), r.0, r.1@, args.deep_view()),
{
    if args.len() == 0 {
        return (CommandResult::Error(String::from_str("Usage: kick <username>")), Vec::new());
    }
    let username = &args[0];
    proof {
        assert(args.deep_view()[0] == username@);
    }
    match state.find_user_by_name(username.as_str()) {
        Some(uid) => {
            proof {
                lemma_user_id_unique(state.sessions@, username@, uid as int);
            }
            let mut sess = UserSession::new(0);
            state.sessions.set_and_swap(uid, &mut sess);
            sess.connected = false;
            sess.status = UserStatus::Disconnected;
            state.sessions.set_and_swap(uid, &mut sess);
            let mut outbox: Outbox = Vec::new();
            outbox.push(
                (uid, ServerMessage::Kicked { reason: String::from_str("Kicked by host") }),
            );
            let m = String::from_str("Kicked user: ").concat(username.as_str());
            (CommandResult::Success(Some(m)), outbox)
        },
        None => {
            let m = String::from_str("User not found: ").concat(username.as_str());
            (CommandResult::Error(m), Vec::new())
        },
    }
}

/// Any session carrying the name stands where [`spec_user_id`] points.
proof fn lemma_user_id_unique(ss: Seq<UserSession>, name: Seq<char>, id: int)
    requires
        forall|i: int, j: int|
            0 <= i < ss.len() && 0 <= j < ss.len() && i != j && (#[trigger] ss[i]).username
                is Some && (#[trigger] ss[j]).username is Some ==> ss[i].username.unwrap()@
                != ss[j].username.unwrap()@,
        0 <= id < ss.len(),
        ss[id].username matches Some(u) && u@ == name,
    ensures
        spec_user_id(ss, name) == id,
{
    let w = spec_user_id(ss, name);
    assert(0 <= w < ss.len() && (ss[w].username matches Some(u) && u@ == name));
    if w != id {
        assert(ss[w].username.unwrap()@ != ss[id].username.unwrap()@);
    }
}

/// Kicks a named session and bans its peer address.
pub fn cmd_ban(state: &mut ServerState, args: &Vec<String>) -> (r: (CommandResult, Outbox))
    requires
        wf(*old(state)),
    ensures
        wf(*final(state)),
        ban_spec(*old(state), *final(state), r.0, r.1@, args.deep_view()),
{
    if args.len() == 0 {
        return (CommandResult::Error(String::from_str("Usage: ban <username>")), Vec::new());
    }
    let username = &args[0];
    proof {
        assert(args.deep_view()[0] == username@);
    }
    match state.find_user_by_name(username.as_str()) {
        Some(uid) => {
            proof {
                lemma_user_id_unique(state.sessions@, username@, uid as int);
            }
            let ip = state.sessions[uid].ip_addr;
            if !state.is_banned(ip) {
                state.banned_ips.push(ip);
            }
            let mut sess = UserSession::new(0);
            state.sessions.set_and_swap(uid, &mut sess);
            sess.connected = false;
            sess.status = UserStatus::Disconnected;
            state.sessions.set_and_swap(uid, &mut sess);
            let mut outbox: Outbox = Vec::new();
            outbox.push(
                (uid, ServerMessage::Kicked { reason: String::from_str("Banned by host") }),
            );
            let m = String::from_str("Banned user: ").concat(username.as_str()).concat(
                " (IP: ",
            ).concat(crate::ip::format_ipv4(ip).as_str()).concat(")");
            (CommandResult::Success(Some(m)), outbox)
        },
        None => {
            let m = String::from_str("User not found: ").concat(username.as_str());
            (CommandResult::Error(m), Vec::new())
        },
    }
}

/// Removes a peer address from the ban set.
pub fn cmd_unban(state: &mut ServerState, args: &Vec<String>) -> (r: (CommandResult, Outbox))
    requires
        wf(*old(state)),
    ensures
        wf(*final(state)),
        unban_spec(*old(state), *final(state), r.0, r.1@, args.deep_view()),
{
    if args.len() == 0 {
        return (CommandResult::Error(String::from_str("Usage: unban <ip>")), Vec::new());
    }
    let raw = &args[0];
    proof {
        assert(args.deep_view()[0] == raw@);
    }
    match crate::ip::parse_ipv4(raw.as_str()) {
        Some(v) => {
            proof {
                let (a0, b0, c0) = choose|a0: int, b0: int, c0: int|
                    #[trigger] crate::ip::ipv4_split(raw@, a0, b0, c0) && v == crate::ip::ipv4_value(
                        raw@,
                        a0,
                        b0,
                        c0,
                    );
                assert forall|a: int, b: int, c: int|
                    #[trigger] crate::ip::ipv4_split(raw@, a, b, c) implies crate::ip::ipv4_value(
                    raw@,
                    a,
                    b,
                    c,
                ) == v by {
                    crate::ip::lemma_ipv4_split_unique(raw@, a, b, c, a0, b0, c0);
                }
            }
            if state.is_banned(v) {
                let mut k: usize = 0;
                let n = state.banned_ips.len();
                proof {
                    assert(args.deep_view().len() == args@.len());
                    assert(args.deep_view()[0] == raw@);
                }
                while k < n
                    invariant
                        k <= n,
                        n == state.banned_ips@.len(),
                        wf(*state),
                        *state == *old(state),
                        args@.len() > 0,
                        args.deep_view().len() == args@.len(),
                        args.deep_view()[0] == raw@,
                        forall|a: int, b: int, c: int|
                            #[trigger] crate::ip::ipv4_split(raw@, a, b, c)
                                ==> crate::ip::ipv4_value(raw@, a, b, c) == v,
                        crate::ip::spec_valid_ipv4(raw@),
                        forall|m: int| 0 <= m < k ==> state.banned_ips@[m] != v,
                        state.banned_ips@.contains(v),
                    decreases n - k,
                {
                    if state.banned_ips[k] == v {
                        let ghost pre_banned = state.banned_ips@;
                        state.banned_ips.remove(k);
                        proof {
                            assert(pre_banned[k as int] == v);
                            assert(state.banned_ips@ == pre_banned.remove(k as int));
                            assert forall|m1: int, m2: int|
                                0 <= m1 < m2 < state.banned_ips@.len() implies state.banned_ips@[m1]
                                != state.banned_ips@[m2] by {
                                if m1 < k as int {
                                    assert(state.banned_ips@[m1] == pre_banned[m1]);
                                } else {
                                    assert(state.banned_ips@[m1] == pre_banned[m1 + 1]);
                                }
                                if m2 < k as int {
                                    assert(state.banned_ips@[m2] == pre_banned[m2]);
                                } else {
                                    assert(state.banned_ips@[m2] == pre_banned[m2 + 1]);
                                }
                            }
                        }
                        let m = String::from_str("Unbanned IP: ").concat(
                            crate::ip::format_ipv4(v).as_str(),
                        );
                        return (CommandResult::Success(Some(m)), Vec::new());
                    }
                    k += 1;
                }
                // not reached: the loop always finds the banned address
                proof {
                    assert(false);
                }
                (CommandResult::Quit, Vec::new())
            } else {
                let m = String::from_str("IP not in ban list: ").concat(
                    crate::ip::format_ipv4(v).as_str(),
                );
                (CommandResult::Error(m), Vec::new())
            }
        },
        None => {
            let m = String::from_str("Invalid IP address: ").concat(raw.as_str());
            (CommandResult::Error(m), Vec::new())
        },
    }
}

/// Changes the host's display focus to one session or to the analytics
/// overview.
pub fn cmd_view(state: &mut ServerState, args: &Vec<String>) -> (r: (CommandResult, Outbox))
    requires
        wf(*old(state)),
    ensures
        wf(*final(state)),
        view_spec(*old(state), *final(state), r.0, r.1@, args.deep_view()),
{
    let show_all = if args.len() == 0 {
        true
    } else {
        proof {
            assert(args.deep_view()[0] == args@[0]@);
        }
        crate::strutil::eq_ignore_case(args[0].as_str(), "all")
    };
    if show_all {
        state.current_view = ServerView::Analytics;
        return (CommandResult::Success(Some(String::from_str("Viewing all users."))), Vec::new());
    }
    let username = &args[0];
    proof {
        assert(args.deep_view()[0] == username@);
    }
    if state.find_user_by_name(username.as_str()).is_some() {
        state.current_view = ServerView::UserDetail(username.clone());
        let m = String::from_str("Viewing user: ").concat(username.as_str());
        (CommandResult::Success(Some(m)), Vec::new())
    } else {
        let m = String::from_str("User not found: ").concat(username.as_str());
        (CommandResult::Error(m), Vec::new())
    }
}

/// Lists the named sessions with their status, or the banned addresses.
pub fn cmd_list(state: &mut ServerState, args: &Vec<String>) -> (r: (CommandResult, Outbox))
    requires
        wf(*old(state)),
        old(state).questions@.len() < usize::MAX,
    ensures
        wf(*final(state)),
        list_spec(*old(state), *final(state), r.0, r.1@, args.deep_view()),
{
    let bans_mode = if args.len() == 0 {
        false
    } else {
        proof {
            assert(args.deep_view()[0] == args@[0]@);
        }
        crate::strutil::eq_ignore_case(args[0].as_str(), "bans")
    };
    if bans_mode {
        if state.banned_ips.len() == 0 {
            return (
                CommandResult::Success(Some(String::from_str("No banned IPs."))),
                Vec::new(),
            );
        }
        let mut reps: Vec<String> = Vec::new();
        let n = state.banned_ips.len();
        let mut i: usize = 0;
        while i < n
            invariant
                i <= n,
                n == state.banned_ips@.len(),
                reps.deep_view() == ip_reps(state.banned_ips@, i as int),
                reps@.len() == i,
            decreases n - i,
        {
            let ghost pre = reps.deep_view();
            reps.push(crate::ip::format_ipv4(state.banned_ips[i]));
            proof {
                assert(reps.deep_view() =~~= pre.push(
                    crate::ip::ip_rep(state.banned_ips@[i as int]),
                ));
            }
            i += 1;
        }
        let m = String::from_str("Banned IPs: ").concat(
            crate::strutil::join_comma(&reps).as_str(),
        );
        (CommandResult::Success(Some(m)), Vec::new())
    } else {
        let mut labels: Vec<String> = Vec::new();
        let n = state.sessions.len();
        let mut i: usize = 0;
        while i < n
            invariant
                i <= n,
                n == state.sessions@.len(),
                wf(*state),
                *state == *old(state),
                state.questions@.len() < usize::MAX,
                labels.deep_view() == user_labels(state.sessions@, i as int),
            decreases n - i,
        {
            let named_here = state.sessions[i].username.is_some();
            if named_here {
                let status_str: String = match state.sessions[i].status {
                    UserStatus::InLobby => String::from_str("lobby"),
                    UserStatus::Answering(k) => String::from_str("Q").concat(
                        usize_to_string(k + 1).as_str(),
                    ),
                    UserStatus::Finished => String::from_str("done"),
                    UserStatus::Disconnected => String::from_str("disconnected"),
                    UserStatus::Connected => String::from_str("connecting"),
                };
                let label = match &state.sessions[i].username {
                    Some(u) => u.clone().concat(" (").concat(status_str.as_str()).concat(")"),
                    None => {
                        proof {
                            assert(false);
                        }
                        String::new()
                    },
                };
                let ghost pre = labels.deep_view();
                labels.push(label);
                proof {
                    assert(labels.deep_view() =~~= pre.push(
                        name_of(state.sessions@[i as int]) + " ("@ + status_label(
                            state.sessions@[i as int].status,
                        ) + ")"@,
                    ));
                }
            }
            i += 1;
        }
        proof {
            assert(labels.deep_view().len() == labels@.len());
        }
        if labels.len() == 0 {
            (CommandResult::Success(Some(String::from_str("No users connected."))), Vec::new())
        } else {
            let m = String::from_str("Users: ").concat(
                crate::strutil::join_comma(&labels).as_str(),
            );
            (CommandResult::Success(Some(m)), Vec::new())
        }
    }
}

/// The full contract of the `help` command: the command summary, and no
/// state change (the caller already sees `post == pre` since nothing takes
/// the state).
pub open spec fn help_spec(res: CommandResult, outbox: Seq<(usize, ServerMessage)>) -> bool {
    &&& outbox.len() == 0
    &&& (res matches CommandResult::Success(om) && om matches Some(m) && m@
        == "Available commands:\n  start          - Start the quiz (lobby only)\n  stop           - End quiz, send results to finished users\n  quit/exit      - Shutdown server\n  kick <user>    - Disconnect a user\n  ban <user>     - Kick and ban user's IP\n  unban <ip>     - Remove IP from ban list\n  view <user>    - Show detailed view of user\n  view all       - Show all users analytics\n  list           - List connected users\n  list bans      - List banned IPs\n  help/?         - Show this help"@)
}

/// Shows the command summary.
pub fn cmd_help() -> (r: (CommandResult, Outbox))
    ensures
        help_spec(r.0, r.1@),
{
    let help = String::from_str(
        "Available commands:\n  start          - Start the quiz (lobby only)\n  stop           - End quiz, send results to finished users\n  quit/exit      - Shutdown server\n  kick <user>    - Disconnect a user\n  ban <user>     - Kick and ban user's IP\n  unban <ip>     - Remove IP from ban list\n  view <user>    - Show detailed view of user\n  view all       - Show all users analytics\n  list           - List connected users\n  list bans      - List banned IPs\n  help/?         - Show this help",
    );
    (CommandResult::Success(Some(help)), Vec::new())
}

/// What one typed line does: the first whitespace token picks the command,
/// matched ignoring ASCII case; the rest are its arguments; a blank line
/// does nothing and an unknown command is an error, both leaving the state
/// alone.
pub open spec fn command_dispatch(
    pre: ServerState,
    post: ServerState,
    res: CommandResult,
    outbox: Seq<(usize, ServerMessage)>,
    toks: Seq<Seq<char>>,
) -> bool {
    if toks.len() == 0 {
        &&& post == pre
        &&& outbox.len() == 0
        &&& (res matches CommandResult::Success(om) && om is None)
    } else {
        let cmd = toks[0];
        let args = toks.drop_first();
        if crate::strutil::str_ieq(cmd, "start"@) {
            start_spec(pre, post, res, outbox)
        } else if crate::strutil::str_ieq(cmd, "stop"@) {
            stop_spec(pre, post, res, outbox)
        } else if crate::strutil::str_ieq(cmd, "quit"@) || crate::strutil::str_ieq(cmd, "exit"@) {
            quit_spec(pre, post, res, outbox)
        } else if crate::strutil::str_ieq(cmd, "kick"@) {
            kick_spec(pre, post, res, outbox, args)
        } else if crate::strutil::str_ieq(cmd, "ban"@) {
            ban_spec(pre, post, res, outbox, args)
        } else if crate::strutil::str_ieq(cmd, "unban"@) {
            unban_spec(pre, post, res, outbox, args)
        } else if crate::strutil::str_ieq(cmd, "view"@) {
            view_spec(pre, post, res, outbox, args)
        } else if crate::strutil::str_ieq(cmd, "list"@) {
            list_spec(pre, post, res, outbox, args)
        } else if crate::strutil::str_ieq(cmd, "help"@) || crate::strutil::str_ieq(cmd, "?"@) {
            post == pre && help_spec(res, outbox)
        } else {
            &&& post == pre
            &&& outbox.len() == 0
            &&& (res matches CommandResult::Error(m) && m@ == "Unknown command: "@ + cmd
                + ". Type 'help' for available commands."@)
        }
    }
}

/// Parses and executes one host command line.
pub fn execute_command(state: &mut ServerState, input: &str) -> (r: (CommandResult, Outbox))
    requires
        wf(*old(state)),
        old(state).questions@.len() < usize::MAX,
    ensures
        wf(*final(state)),
        command_dispatch(
            *old(state),
            *final(state),
            r.0,
            r.1@,
            crate::strutil::tokens_spec(input@),
        ),
{
    let toks = crate::strutil::tokenize(input);
    if toks.len() == 0 {
        proof {
            assert(toks.deep_view().len() == 0);
        }
        return (CommandResult::Success(None), Vec::new());
    }
    let mut args: Vec<String> = Vec::new();
    let mut i: usize = 1;
    while i < toks.len()
        invariant
            1 <= i <= toks@.len(),
            args@ == toks@.subrange(1, i as int),
        decreases toks@.len() - i,
    {
        args.push(toks[i].clone());
        proof {
            assert(args@ =~= toks@.subrange(1, i + 1));
        }
        i += 1;
    }
    proof {
        assert(args@ =~= toks@.subrange(1, toks@.len() as int));
        assert(args.deep_view() =~~= toks.deep_view().drop_first());
        assert(toks.deep_view()[0] == toks@[0]@);
    }
    let cmd = &toks[0];
    if crate::strutil::eq_ignore_case(cmd.as_str(), "start") {
        cmd_start(state)
    } else if crate::strutil::eq_ignore_case(cmd.as_str(), "stop") {
        cmd_stop(state)
    } else if crate::strutil::eq_ignore_case(cmd.as_str(), "quit") || crate::strutil::eq_ignore_case(
        cmd.as_str(),
        "exit",
    ) {
        cmd_quit(state)
    } else if crate::strutil::eq_ignore_case(cmd.as_str(), "kick") {
        cmd_kick(state, &args)
    } else if crate::strutil::eq_ignore_case(cmd.as_str(), "ban") {
        cmd_ban(state, &args)
    } else if crate::strutil::eq_ignore_case(cmd.as_str(), "unban") {
        cmd_unban(state, &args)
    } else if crate::strutil::eq_ignore_case(cmd.as_str(), "view") {
        cmd_view(state, &args)
    } else if crate::strutil::eq_ignore_case(cmd.as_str(), "list") {
        cmd_list(state, &args)
    } else if crate::strutil::eq_ignore_case(cmd.as_str(), "help") || crate::strutil::eq_ignore_case(
        cmd.as_str(),
        "?",
    ) {
        cmd_help()
    } else {
        let m = String::from_str("Unknown command: ").concat(cmd.as_str()).concat(
            ". Type 'help' for available commands.",
        );
        (CommandResult::Error(m), Vec::new())
    }
}

/// The two states agree on everything but the host's command line.
pub open spec fn input_frame(pre: ServerState, post: ServerState) -> bool {
    &&& post.status == pre.status
    &&& post.questions == pre.questions
    &&& post.sessions == pre.sessions
    &&& post.ip_index == pre.ip_index
    &&& post.banned_ips == pre.banned_ips
    &&& post.current_view == pre.current_view
    &&& post.previous_view == pre.previous_view
    &&& post.command_history == pre.command_history
    &&& post.live_answers == pre.live_answers
    &&& post.should_quit == pre.should_quit
    &&& post.port == pre.port
}

/// Appends a typed character to the host's command line.
pub fn host_input_char(state: &mut ServerState, c: char)
    ensures
        final(state).command_input@ == old(state).command_input@.push(c),
        input_frame(*old(state), *final(state)),
{
    crate::strutil::push_char(&mut state.command_input, c);
}

/// Removes the last character of the host's command line, if any.
pub fn host_input_backspace(state: &mut ServerState)
    ensures
        final(state).command_input@ == (if old(state).command_input@.len() == 0 {
            old(state).command_input@
        } else {
            old(state).command_input@.drop_last()
        }),
        input_frame(*old(state), *final(state)),
{
    let _ = crate::strutil::pop_char(&mut state.command_input);
}

/// Clears the host's command line.
pub fn host_input_clear(state: &mut ServerState)
    ensures
        final(state).command_input@.len() == 0,
        input_frame(*old(state), *final(state)),
{
    state.command_input = String::new();
}

/// Cycles the host's view as the tab key does: between the lobby and the
/// analytics, with a user detail or the help view falling back.
pub fn cycle_view(state: &mut ServerState)
    ensures
        final(state).current_view == (match old(state).current_view {
            ServerView::Lobby => ServerView::Analytics,
            ServerView::Analytics => ServerView::Lobby,
            ServerView::UserDetail(_) => ServerView::Analytics,
            ServerView::Help => ServerView::Lobby,
        }),
        view_frame(*old(state), *final(state)),
{
    let next = match &state.current_view {
        ServerView::Lobby => ServerView::Analytics,
        ServerView::Analytics => ServerView::Lobby,
        ServerView::UserDetail(_) => ServerView::Analytics,
        ServerView::Help => ServerView::Lobby,
    };
    state.current_view = next;
}

/// Leaves the help view for the remembered previous view (or the lobby);
/// in any other view nothing changes.
pub fn leave_help(state: &mut ServerState)
    ensures
        if old(state).current_view is Help {
            &&& final(state).current_view == (match old(state).previous_view {
                Some(v) => v,
                None => ServerView::Lobby,
            })
            &&& final(state).previous_view is None
            &&& final(state).status == old(state).status
            &&& final(state).questions == old(state).questions
            &&& final(state).sessions == old(state).sessions
            &&& final(state).ip_index == old(state).ip_index
            &&& final(state).banned_ips == old(state).banned_ips
            &&& final(state).command_input == old(state).command_input
            &&& final(state).command_history == old(state).command_history
            &&& final(state).live_answers == old(state).live_answers
            &&& final(state).should_quit == old(state).should_quit
            &&& final(state).port == old(state).port
        } else {
            *final(state) == *old(state)
        },
{
    let in_help = matches!(state.current_view, ServerView::Help);
    if in_help {
        let mut prev: Option<ServerView> = None;
        core::mem::swap(&mut prev, &mut state.previous_view);
        state.current_view = match prev {
            Some(v) => v,
            None => ServerView::Lobby,
        };
    }
}

/// What running one typed line leaves behind: the line's command effect
/// (`mid` is the state right after it), the quit flag, and the outcome's
/// message appended to the history.
pub open spec fn run_line_post(
    pre: ServerState,
    mid: ServerState,
    res: CommandResult,
    fin: ServerState,
    quit: bool,
    outbox: Seq<(usize, ServerMessage)>,
) -> bool {
    &&& command_dispatch(pre, mid, res, outbox, crate::strutil::tokens_spec(pre.command_input@))
    &&& quit == (res is Quit)
    &&& fin.status == mid.status
    &&& fin.questions == mid.questions
    &&& fin.sessions == mid.sessions
    &&& fin.ip_index == mid.ip_index
    &&& fin.banned_ips == mid.banned_ips
    &&& fin.current_view == mid.current_view
    &&& fin.previous_view == mid.previous_view
    &&& fin.live_answers == mid.live_answers
    &&& fin.should_quit == mid.should_quit
    &&& fin.port == mid.port
    &&& match res {
        CommandResult::Success(om) => match om {
            Some(m) => crate::handlers::history_appended(
                mid.command_history@,
                fin.command_history@,
                m@,
            ),
            None => fin.command_history == mid.command_history,
        },
        CommandResult::Error(m) => crate::handlers::history_appended(
            mid.command_history@,
            fin.command_history@,
            "Error: "@ + m@,
        ),
        CommandResult::Quit => fin.command_history == mid.command_history,
    }
}

/// Some command outcome explains the step from `pre` to `fin` as
/// [`run_line_post`] describes.
pub open spec fn run_line_ok(
    pre: ServerState,
    fin: ServerState,
    quit: bool,
    outbox: Seq<(usize, ServerMessage)>,
) -> bool {
    exists|mid: ServerState, res: CommandResult|
        #[trigger] run_line_post(pre, mid, res, fin, quit, outbox)
}

/// Runs the command line the host has typed, as the enter key does: the
/// line is executed against the state, the input is cleared, and a
/// non-quit outcome's message lands in the history; the flag says whether
/// the host asked to quit.
pub fn run_command_line(state: &mut ServerState) -> (r: (bool, Outbox))
    requires
        wf(*old(state)),
        old(state).questions@.len() < usize::MAX,
    ensures
        wf(*final(state)),
        final(state).command_input@.len() == 0,
        run_line_ok(*old(state), *final(state), r.0, r.1@),
{
    let input = state.command_input.clone();
    let (res, outbox) = execute_command(state, input.as_str());
    let ghost mid = *state;
    let ghost gres = res;
    state.command_input = String::new();
    let quit = match res {
        CommandResult::Success(om) => {
            match om {
                Some(m) => {
                    state.add_to_history(m);
                },
                None => {},
            }
            false
        },
        CommandResult::Error(m) => {
            let t = String::from_str("Error: ").concat(m.as_str());
            state.add_to_history(t);
            false
        },
        CommandResult::Quit => true,
    };
    proof {
        let ghost fin = *state;
        assert(run_line_post(*old(state), mid, gres, fin, quit, outbox@));
        assert(run_line_ok(*old(state), fin, quit, outbox@));
    }
    (quit, outbox)
}

} // verus!
