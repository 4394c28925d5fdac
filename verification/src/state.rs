//! Server-side state: the session registry, per-participant sessions, and
//! the derived leaderboard.
//!
//! One `ServerState` value exists per server run.  Sessions are appended to
//! the registry and never removed; a session's position in the registry is
//! its identity, so bindings from peer address to session stay valid for the
//! whole run.  A kick or a disconnect detaches the session's connection and
//! marks it disconnected; the record stays, ready to be resumed.

use vstd::prelude::*;

use crate::question::Question;
use crate::question::clone_options;
use crate::question::compute_score;
use crate::question::spec_score;
use crate::protocol::AnswerResult;
use crate::protocol::LeaderboardEntry;
use crate::strutil::str_eq;

verus! {

/// Current status of the server.
#[derive(Debug, Clone, Copy, PartialEq, Eq, Structural)]
pub enum ServerStatus {
    /// Waiting for the host to start the quiz.
    Lobby,
    /// Quiz is in progress.
    InProgress,
    /// Quiz has finished.
    Finished,
}

/// Current status of a connected participant.
#[derive(Debug, Clone, Copy, PartialEq, Eq, Structural)]
pub enum UserStatus {
    /// Connected but has not provided a username yet.
    Connected,
    /// Has a username, waiting in the lobby for the quiz to start.
    InLobby,
    /// Currently answering the question at this index.
    Answering(usize),
    /// Completed all questions.
    Finished,
    /// Was connected but dropped; may reconnect.
    Disconnected,
}

/// What view the host is currently seeing.
#[derive(Debug, Clone, PartialEq, Eq)]
pub enum ServerView {
    /// Lobby view showing connected participants.
    Lobby,
    /// Analytics view showing every participant's progress.
    Analytics,
    /// Detailed view of one participant.
    UserDetail(String),
    /// Help view showing the available commands.
    Help,
}

impl Default for ServerView {
    /// The host starts on the lobby view.
    fn default() -> (s: Self)
        ensures
            s == ServerView::Lobby,
    {
        ServerView::Lobby
    }
}

/// A peer address, as the IPv4 bits the transport reports for a connection.
pub type IpV4 = u32;

/// One participant session.
pub struct UserSession {
    /// Username; `None` until a Join is accepted, then never changed.
    pub username: Option<String>,
    /// Peer address, fixed at creation.
    pub ip_addr: IpV4,
    /// Current status.
    pub status: UserStatus,
    /// Submitted answers; `None` means not answered yet.
    pub answers: Vec<Option<usize>>,
    /// Final score, set when the participant finishes.
    pub score: Option<usize>,
    /// When the participant finished, on the caller's monotonic clock;
    /// used only to break leaderboard ties.
    pub finished_at: Option<u64>,
    /// Whether an outbound connection is currently attached.
    pub connected: bool,
}

/// Whether the session has a username.
pub open spec fn is_named(s: UserSession) -> bool {
    s.username is Some
}

/// Whether the session has finished the quiz.
pub open spec fn is_finished_session(s: UserSession) -> bool {
    s.status is Finished
}

/// Whether the session is actively connected: an outbound connection is
/// attached and the session is not marked disconnected.
pub open spec fn is_connected_session(s: UserSession) -> bool {
    s.connected && !(s.status is Disconnected)
}

/// Whether the session counts for the leaderboard: finished and named.
pub open spec fn is_ranked(s: UserSession) -> bool {
    is_finished_session(s) && is_named(s)
}

/// The session's score with an unset score reading as zero.
pub open spec fn spec_score_of(s: UserSession) -> nat {
    match s.score {
        Some(v) => v as nat,
        None => 0,
    }
}

/// The count of contiguous set slots from the start of `answers`: the
/// session's derived current question index.
pub open spec fn spec_current_index(answers: Seq<Option<usize>>) -> nat
    decreases answers.len(),
{
    if answers.len() == 0 || answers[0] is None {
        0
    } else {
        1 + spec_current_index(answers.drop_first())
    }
}

/// The number of set slots anywhere in `answers`.
pub open spec fn spec_answered_count(answers: Seq<Option<usize>>, n: int) -> nat
    decreases n,
{
    if n <= 0 {
        0
    } else {
        spec_answered_count(answers, n - 1) + (if answers[n - 1] is Some {
            1nat
        } else {
            0nat
        })
    }
}

/// The derived current index never exceeds the slot count.
pub proof fn lemma_current_index_le(answers: Seq<Option<usize>>)
    ensures
        spec_current_index(answers) <= answers.len(),
    decreases answers.len(),
{
    if answers.len() > 0 && answers[0] is Some {
        lemma_current_index_le(answers.drop_first());
    }
}

proof fn lemma_current_index_at(answers: Seq<Option<usize>>, i: int)
    requires
        0 <= i <= answers.len(),
        forall|k: int| 0 <= k < i ==> answers[k] is Some,
        i == answers.len() || answers[i] is None,
    ensures
        spec_current_index(answers) == i,
    decreases i,
{
    if i > 0 {
        lemma_current_index_at(answers.drop_first(), i - 1);
    }
}

impl UserSession {
    /// Creates a session for a newly connected peer: no username yet, an
    /// attached connection, and nothing answered.
    pub fn new(ip_addr: IpV4) -> (s: UserSession)
        ensures
            s.username is None,
            s.ip_addr == ip_addr,
            s.status == UserStatus::Connected,
            s.answers@.len() == 0,
            s.score is None,
            s.finished_at is None,
            s.connected,
    {
        UserSession {
            username: None,
            ip_addr,
            status: UserStatus::Connected,
            answers: Vec::new(),
            score: None,
            finished_at: None,
            connected: true,
        }
    }

    /// Gives the session one unset answer slot per question.
    pub fn init_answers(&mut self, num_questions: usize)
        ensures
            final(self).answers@.len() == num_questions,
            forall|i: int| 0 <= i < num_questions ==> final(self).answers@[i] is None,
            final(self).username == old(self).username,
            final(self).ip_addr == old(self).ip_addr,
            final(self).status == old(self).status,
            final(self).score == old(self).score,
            final(self).finished_at == old(self).finished_at,
            final(self).connected == old(self).connected,
    {
        self.answers = vec![None; num_questions];
    }

    /// The derived current question index: how many slots are set
    /// contiguously from the start.
    pub fn current_question_index(&self) -> (r: usize)
        ensures
            r == spec_current_index(self.answers@),
            r <= self.answers@.len(),
    {
        let mut i: usize = 0;
        let n = self.answers.len();
        while i < n && self.answers[i].is_some()
            invariant
                i <= n,
                n == self.answers@.len(),
                forall|k: int| 0 <= k < i ==> self.answers@[k] is Some,
            decreases n - i,
        {
            i += 1;
        }
        proof {
            lemma_current_index_at(self.answers@, i as int);
        }
        i
    }

    /// Whether the session has finished the quiz.
    pub fn is_finished(&self) -> (r: bool)
        ensures
            r == is_finished_session(*self),
    {
        matches!(self.status, UserStatus::Finished)
    }

    /// Whether the session is actively connected.
    pub fn is_connected(&self) -> (r: bool)
        ensures
            r == is_connected_session(*self),
    {
        self.connected && !matches!(self.status, UserStatus::Disconnected)
    }

    /// The session's score against the given questions: the count of slots
    /// whose stored choice equals that question's correct option.
    pub fn calculate_score(&self, questions: &Vec<Question>) -> (score: usize)
        ensures
            score == spec_score(self.answers@, questions@),
            score <= self.answers@.len(),
    {
        compute_score(&self.answers, questions)
    }

    /// The number of correct answers recorded so far; the same count as
    /// [`Self::calculate_score`], read while the quiz is still running.
    pub fn correct_count(&self, questions: &Vec<Question>) -> (r: usize)
        ensures
            r == spec_score(self.answers@, questions@),
    {
        compute_score(&self.answers, questions)
    }

    /// The number of answered slots.
    pub fn answered_count(&self) -> (r: usize)
        ensures
            r == spec_answered_count(self.answers@, self.answers@.len() as int),
    {
        let mut count: usize = 0;
        let mut i: usize = 0;
        let n = self.answers.len();
        while i < n
            invariant
                i <= n,
                n == self.answers@.len(),
                count == spec_answered_count(self.answers@, i as int),
                count <= i,
            decreases n - i,
        {
            if self.answers[i].is_some() {
                count += 1;
            }
            i += 1;
        }
        count
    }
}

/// A record of a recent answer for the live feed.
#[derive(Debug, Clone, PartialEq)]
pub struct LiveAnswer {
    pub username: String,
    pub question_index: usize,
    pub answer: usize,
    /// When the answer arrived, on the caller's monotonic clock.
    pub timestamp: u64,
}

/// A binding from a peer address to the session it currently addresses.
#[derive(Debug, Clone, Copy, PartialEq, Eq, Structural)]
pub struct IpBinding {
    /// The peer address.
    pub ip: IpV4,
    /// Position of the addressed session in the registry.
    pub id: usize,
}

/// The number of sessions among the first `n` that satisfy `p`.
pub open spec fn count_matching(
    ss: Seq<UserSession>,
    p: spec_fn(UserSession) -> bool,
    n: int,
) -> nat
    decreases n,
{
    if n <= 0 {
        0
    } else {
        count_matching(ss, p, n - 1) + (if p(ss[n - 1]) {
            1nat
        } else {
            0nat
        })
    }
}

/// The number of named sessions.
pub open spec fn spec_named_count(ss: Seq<UserSession>) -> nat {
    count_matching(ss, (|s: UserSession| is_named(s)), ss.len() as int)
}

/// The number of finished sessions.
pub open spec fn spec_finished_count(ss: Seq<UserSession>) -> nat {
    count_matching(ss, (|s: UserSession| is_finished_session(s)), ss.len() as int)
}

/// The number of ranked (finished and named) sessions.
pub open spec fn spec_ranked_count(ss: Seq<UserSession>) -> nat {
    count_matching(ss, (|s: UserSession| is_ranked(s)), ss.len() as int)
}

/// Whether some session among the first `n` carries this username.
pub open spec fn name_taken_upto(ss: Seq<UserSession>, name: Seq<char>, n: int) -> bool {
    exists|i: int| 0 <= i < n && (#[trigger] ss[i].username matches Some(u) && u@ == name)
}

/// Whether some session carries this username.
pub open spec fn spec_name_taken(ss: Seq<UserSession>, name: Seq<char>) -> bool {
    name_taken_upto(ss, name, ss.len() as int)
}

/// The bound on the live-answer feed.
pub const LIVE_ANSWER_CAP: usize = 50;

/// The bound on the host message history.
pub const HISTORY_CAP: usize = 100;

/// Main server state.
pub struct ServerState {
    /// Current server status.
    pub status: ServerStatus,
    /// Loaded questions, fixed for the run.
    pub questions: Vec<Question>,
    /// All sessions, in creation order; a session's position is its
    /// identity and sessions are never removed.
    pub sessions: Vec<UserSession>,
    /// Which session each peer address currently addresses; at most one
    /// binding per address.
    pub ip_index: Vec<IpBinding>,
    /// Banned peer addresses.
    pub banned_ips: Vec<IpV4>,
    /// Current view for the host.
    pub current_view: ServerView,
    /// Previous view, for returning from the help view.
    pub previous_view: Option<ServerView>,
    /// The command line the host is typing.
    pub command_input: String,
    /// Host message history, newest last, at most [`HISTORY_CAP`] entries.
    pub command_history: Vec<String>,
    /// Recent answers for the live feed, newest last, at most
    /// [`LIVE_ANSWER_CAP`] entries.
    pub live_answers: Vec<LiveAnswer>,
    /// Whether the server should shut down.
    pub should_quit: bool,
    /// Server port, kept for display.
    pub port: u16,
}

/// Well-formedness of the registry, preserved by every transition:
/// address bindings point at sessions of that address and no address is
/// bound twice; usernames are unique among the sessions that have one; a
/// session's answer list is empty until initialized to the full question
/// count, and only named sessions have one; the two bounded logs respect
/// their caps.
pub open spec fn wf(state: ServerState) -> bool {
    let ss = state.sessions@;
    &&& forall|k: int|
        0 <= k < state.ip_index@.len() ==> (#[trigger] state.ip_index@[k]).id < ss.len()
            && ss[state.ip_index@[k].id as int].ip_addr == state.ip_index@[k].ip
    &&& forall|k1: int, k2: int|
        0 <= k1 < k2 < state.ip_index@.len() ==> (#[trigger] state.ip_index@[k1]).ip != (
        #[trigger] state.ip_index@[k2]).ip
    &&& forall|i: int, j: int|
        0 <= i < ss.len() && 0 <= j < ss.len() && i != j && (#[trigger] ss[i]).username is Some && (
        #[trigger] ss[j]).username is Some ==> ss[i].username.unwrap()@
            != ss[j].username.unwrap()@
    &&& forall|i: int|
        0 <= i < ss.len() ==> (#[trigger] ss[i]).answers@.len() == 0 || ss[i].answers@.len()
            == state.questions@.len()
    &&& forall|i: int|
        0 <= i < ss.len() && (#[trigger] ss[i]).answers@.len() > 0 ==> ss[i].username is Some
    &&& forall|i: int|
        0 <= i < ss.len() && (#[trigger] ss[i]).status is Finished ==> ss[i].username is Some
    &&& forall|i: int|
        0 <= i < ss.len() ==> ((#[trigger] ss[i]).status matches UserStatus::Answering(k) ==> k
            <= state.questions@.len())
    &&& forall|k1: int, k2: int|
        0 <= k1 < k2 < state.banned_ips@.len() ==> state.banned_ips@[k1] != state.banned_ips@[k2]
    &&& state.live_answers@.len() <= LIVE_ANSWER_CAP
    &&& state.command_history@.len() <= HISTORY_CAP
}

impl ServerState {
    /// Creates the server state over the loaded questions: lobby status,
    /// no sessions, nothing banned, empty logs.
    pub fn new(questions: Vec<Question>, port: u16) -> (state: ServerState)
        ensures
            wf(state),
            state.status == ServerStatus::Lobby,
            state.questions == questions,
            state.sessions@.len() == 0,
            state.ip_index@.len() == 0,
            state.banned_ips@.len() == 0,
            state.current_view == ServerView::Lobby,
            state.previous_view is None,
            state.command_input@.len() == 0,
            state.command_history@.len() == 0,
            state.live_answers@.len() == 0,
            !state.should_quit,
            state.port == port,
    {
        ServerState {
            status: ServerStatus::Lobby,
            questions,
            sessions: Vec::new(),
            ip_index: Vec::new(),
            banned_ips: Vec::new(),
            current_view: ServerView::Lobby,
            previous_view: None,
            command_input: String::new(),
            command_history: Vec::new(),
            live_answers: Vec::new(),
            should_quit: false,
            port,
        }
    }

    /// The number of sessions with a username.
    pub fn named_user_count(&self) -> (r: usize)
        ensures
            r == spec_named_count(self.sessions@),
    {
        let mut count: usize = 0;
        let mut i: usize = 0;
        let n = self.sessions.len();
        while i < n
            invariant
                i <= n,
                n == self.sessions@.len(),
                count == count_matching(
                    self.sessions@,
                    (|s: UserSession| is_named(s)),
                    i as int,
                ),
                count <= i,
            decreases n - i,
        {
            if self.sessions[i].username.is_some() {
                count += 1;
            }
            i += 1;
        }
        count
    }

    /// The number of sessions that have finished.
    pub fn finished_count(&self) -> (r: usize)
        ensures
            r == spec_finished_count(self.sessions@),
    {
        let mut count: usize = 0;
        let mut i: usize = 0;
        let n = self.sessions.len();
        while i < n
            invariant
                i <= n,
                n == self.sessions@.len(),
                count == count_matching(
                    self.sessions@,
                    (|s: UserSession| is_finished_session(s)),
                    i as int,
                ),
                count <= i,
            decreases n - i,
        {
            if self.sessions[i].is_finished() {
                count += 1;
            }
            i += 1;
        }
        count
    }

    /// Whether any session already carries this username.
    pub fn is_username_taken(&self, username: &str) -> (r: bool)
        ensures
            r == spec_name_taken(self.sessions@, username@),
    {
        self.find_user_by_name(username).is_some()
    }

    /// The session currently carrying this username, if any.
    pub fn find_user_by_name(&self, username: &str) -> (r: Option<usize>)
        ensures
            match r {
                Some(id) => id < self.sessions@.len() && (self.sessions@[id as int].username
                    matches Some(u) && u@ == username@),
                None => !spec_name_taken(self.sessions@, username@),
            },
    {
        let mut i: usize = 0;
        let n = self.sessions.len();
        while i < n
            invariant
                i <= n,
                n == self.sessions@.len(),
                !name_taken_upto(self.sessions@, username@, i as int),
            decreases n - i,
        {
            let hit = match &self.sessions[i].username {
                Some(u) => str_eq(u.as_str(), username),
                None => false,
            };
            if hit {
                return Some(i);
            }
            i += 1;
        }
        None
    }

    /// The session a peer address currently addresses, if any.
    pub fn find_user_by_ip(&self, ip: IpV4) -> (r: Option<usize>)
        requires
            wf(*self),
        ensures
            match r {
                Some(id) => id < self.sessions@.len() && self.sessions@[id as int].ip_addr == ip
                    && (exists|k: int|
                    0 <= k < self.ip_index@.len() && #[trigger] self.ip_index@[k] == (IpBinding {
                        ip,
                        id: id as usize,
                    })),
                None => forall|k: int|
                    0 <= k < self.ip_index@.len() ==> (#[trigger] self.ip_index@[k]).ip != ip,
            },
    {
        let mut k: usize = 0;
        let n = self.ip_index.len();
        while k < n
            invariant
                wf(*self),
                k <= n,
                n == self.ip_index@.len(),
                forall|m: int| 0 <= m < k ==> (#[trigger] self.ip_index@[m]).ip != ip,
            decreases n - k,
        {
            let b = self.ip_index[k];
            if b.ip == ip {
                proof {
                    let kk = k as int;
                    assert(b == self.ip_index@[kk]);
                    assert(self.ip_index@[kk].id < self.sessions@.len());
                    assert(self.sessions@[self.ip_index@[kk].id as int].ip_addr
                        == self.ip_index@[kk].ip);
                    assert(self.ip_index@[kk] == (IpBinding { ip, id: b.id }));
                }
                return Some(b.id);
            }
            k += 1;
        }
        None
    }

    /// Whether a peer address is banned.
    pub fn is_banned(&self, ip: IpV4) -> (r: bool)
        ensures
            r == self.banned_ips@.contains(ip),
    {
        let mut k: usize = 0;
        let n = self.banned_ips.len();
        while k < n
            invariant
                k <= n,
                n == self.banned_ips@.len(),
                forall|m: int| 0 <= m < k ==> self.banned_ips@[m] != ip,
            decreases n - k,
        {
            if self.banned_ips[k] == ip {
                return true;
            }
            k += 1;
        }
        proof {
            assert(forall|m: int| 0 <= m < self.banned_ips@.len() ==> self.banned_ips@[m] != ip);
        }
        false
    }

    /// Appends an entry to the live-answer feed, evicting the oldest past
    /// the cap.
    pub fn record_live_answer(
        &mut self,
        username: String,
        question_index: usize,
        answer: usize,
        timestamp: u64,
    )
        requires
            old(self).live_answers@.len() <= LIVE_ANSWER_CAP,
        ensures
            final(self).live_answers@ == feed_after(
                old(self).live_answers@,
                LiveAnswer { username, question_index, answer, timestamp },
                LIVE_ANSWER_CAP as int,
            ),
            final(self).live_answers@.len() <= LIVE_ANSWER_CAP,
            unchanged_but_live_answers(*old(self), *final(self)),
    {
        self.live_answers.push(LiveAnswer { username, question_index, answer, timestamp });
        if self.live_answers.len() > LIVE_ANSWER_CAP {
            self.live_answers.remove(0);
        }
    }

    /// Appends a message to the host history, evicting the oldest past the
    /// cap.
    pub fn add_to_history(&mut self, msg: String)
        requires
            old(self).command_history@.len() <= HISTORY_CAP,
        ensures
            final(self).command_history@ == feed_after_str(
                old(self).command_history@,
                msg,
                HISTORY_CAP as int,
            ),
            final(self).command_history@.len() <= HISTORY_CAP,
            unchanged_but_history(*old(self), *final(self)),
    {
        self.command_history.push(msg);
        if self.command_history.len() > HISTORY_CAP {
            self.command_history.remove(0);
        }
    }
}

/// A bounded feed after appending `x`: the new entry goes last and the
/// oldest entry leaves if the cap would be passed.
pub open spec fn feed_after(feed: Seq<LiveAnswer>, x: LiveAnswer, cap: int) -> Seq<LiveAnswer> {
    if feed.len() + 1 > cap {
        feed.push(x).drop_first()
    } else {
        feed.push(x)
    }
}

/// A bounded history after appending `x`: the new entry goes last and the
/// oldest entry leaves if the cap would be passed.
pub open spec fn feed_after_str(feed: Seq<String>, x: String, cap: int) -> Seq<String> {
    if feed.len() + 1 > cap {
        feed.push(x).drop_first()
    } else {
        feed.push(x)
    }
}

/// The two states agree on everything but the live-answer feed.
pub open spec fn unchanged_but_live_answers(a: ServerState, b: ServerState) -> bool {
    b.status == a.status && b.questions == a.questions && b.sessions == a.sessions && b.ip_index
        == a.ip_index && b.banned_ips == a.banned_ips && b.current_view == a.current_view
        && b.previous_view == a.previous_view && b.command_input == a.command_input
        && b.command_history == a.command_history && b.should_quit == a.should_quit && b.port
        == a.port
}

/// The two states agree on everything but the host message history.
pub open spec fn unchanged_but_history(a: ServerState, b: ServerState) -> bool {
    b.status == a.status && b.questions == a.questions && b.sessions == a.sessions && b.ip_index
        == a.ip_index && b.banned_ips == a.banned_ips && b.current_view == a.current_view
        && b.previous_view == a.previous_view && b.command_input == a.command_input
        && b.live_answers == a.live_answers && b.should_quit == a.should_quit && b.port == a.port
}

/// Finish-time order: an unset time sorts first, then earlier times.
pub open spec fn finish_le(a: Option<u64>, b: Option<u64>) -> bool {
    match (a, b) {
        (Option::None, _) => true,
        (Option::Some(x), Option::Some(y)) => x <= y,
        (Option::Some(_), Option::None) => false,
    }
}

/// The leaderboard order over session identities: higher score first, then
/// earlier finish time, then earlier creation (lower identity) as the final
/// tiebreak.  A total order.
pub open spec fn rank_le(ss: Seq<UserSession>, i: int, j: int) -> bool {
    let sa = spec_score_of(ss[i]);
    let sb = spec_score_of(ss[j]);
    let fa = ss[i].finished_at;
    let fb = ss[j].finished_at;
    ||| sa > sb
    ||| (sa == sb && finish_le(fa, fb) && !finish_le(fb, fa))
    ||| (sa == sb && finish_le(fa, fb) && finish_le(fb, fa) && i <= j)
}

/// The leaderboard order is total.
pub proof fn lemma_rank_le_total(ss: Seq<UserSession>, i: int, j: int)
    ensures
        rank_le(ss, i, j) || rank_le(ss, j, i),
{
}

/// The leaderboard order is transitive.
pub proof fn lemma_rank_le_trans(ss: Seq<UserSession>, i: int, j: int, k: int)
    requires
        rank_le(ss, i, j),
        rank_le(ss, j, k),
    ensures
        rank_le(ss, i, k),
{
}

/// The identities (positions) of the sessions among the first `n` that
/// satisfy `p`, in increasing order.
pub open spec fn matching_ids(
    ss: Seq<UserSession>,
    p: spec_fn(UserSession) -> bool,
    n: int,
) -> Seq<usize>
    decreases n,
{
    if n <= 0 {
        Seq::empty()
    } else {
        let rest = matching_ids(ss, p, n - 1);
        if p(ss[n - 1]) {
            rest.push((n - 1) as usize)
        } else {
            rest
        }
    }
}


/// Every identity listed by [`matching_ids`] lies below `n` and satisfies
/// the predicate.
pub proof fn lemma_matching_ids_props(
    ss: Seq<UserSession>,
    p: spec_fn(UserSession) -> bool,
    n: int,
)
    requires
        0 <= n <= ss.len() <= usize::MAX,
    ensures
        forall|k: int|
            0 <= k < matching_ids(ss, p, n).len() ==> (#[trigger] matching_ids(ss, p, n)[k])
                < n && p(ss[matching_ids(ss, p, n)[k] as int]),
    decreases n,
{
    if n > 0 {
        lemma_matching_ids_props(ss, p, n - 1);
        let cur = matching_ids(ss, p, n);
        let rest = matching_ids(ss, p, n - 1);
        assert forall|k: int| 0 <= k < cur.len() implies (#[trigger] cur[k]) < n && p(
            ss[cur[k] as int],
        ) by {
            if p(ss[n - 1]) {
                if k < rest.len() {
                    assert(cur[k] == rest[k]);
                } else {
                    assert(cur[k] == (n - 1) as usize);
                }
            } else {
                assert(cur[k] == rest[k]);
            }
        }
    }
}

/// A correct leaderboard ordering of `ss`: every listed identity is a
/// ranked session, no identity repeats, every ranked session is listed,
/// the list is sorted by [`rank_le`], and its length is the ranked count.
pub open spec fn lb_order_ok(ss: Seq<UserSession>, ids: Seq<usize>) -> bool {
    &&& forall|k: int|
        0 <= k < ids.len() ==> (#[trigger] ids[k]) < ss.len() && is_ranked(ss[ids[k] as int])
    &&& forall|k1: int, k2: int| 0 <= k1 < k2 < ids.len() ==> ids[k1] != ids[k2]
    &&& forall|id: int| 0 <= id < ss.len() && is_ranked(ss[id]) ==> ids.contains(id as usize)
    &&& forall|k1: int, k2: int|
        0 <= k1 < k2 < ids.len() ==> rank_le(ss, ids[k1] as int, ids[k2] as int)
    &&& ids.len() == spec_ranked_count(ss)
}

/// The expected leaderboard entries for an ordering `ids`: dense ranks
/// from one, the session's username and score, the question count as the
/// total, and the requester flagged.
pub open spec fn lb_entries_match(
    ss: Seq<UserSession>,
    total: int,
    requester: Seq<char>,
    ids: Seq<usize>,
    entries: Seq<LeaderboardEntry>,
) -> bool {
    &&& entries.len() == ids.len()
    &&& forall|k: int|
        0 <= k < ids.len() ==> entries[k] == (LeaderboardEntry {
            rank: (k + 1) as usize,
            username: ss[ids[k] as int].username.unwrap(),
            score: spec_score_of(ss[ids[k] as int]) as usize,
            total: total as usize,
            is_you: ss[ids[k] as int].username.unwrap()@ == requester,
        })
}

impl ServerState {
    /// Compares two sessions in the leaderboard order.
    fn rank_le_exec(&self, a: usize, b: usize) -> (r: bool)
        requires
            a < self.sessions@.len(),
            b < self.sessions@.len(),
        ensures
            r == rank_le(self.sessions@, a as int, b as int),
    {
        let sa = match self.sessions[a].score {
            Some(v) => v,
            None => 0,
        };
        let sb = match self.sessions[b].score {
            Some(v) => v,
            None => 0,
        };
        if sa != sb {
            return sa > sb;
        }
        match (self.sessions[a].finished_at, self.sessions[b].finished_at) {
            (None, None) => a <= b,
            (None, Some(_)) => true,
            (Some(_), None) => false,
            (Some(x), Some(y)) => if x == y {
                a <= b
            } else {
                x < y
            },
        }
    }

    /// The identities of the ranked sessions, sorted in the leaderboard
    /// order.
    fn leaderboard_order(&self) -> (ids: Vec<usize>)
        ensures
            lb_order_ok(self.sessions@, ids@),
    {
        let ghost ss = self.sessions@;
        let n = self.sessions.len();
        let mut ids: Vec<usize> = Vec::new();
        let mut i: usize = 0;
        while i < n
            invariant
                i <= n,
                n == ss.len(),
                ss == self.sessions@,
                forall|k: int|
                    0 <= k < ids@.len() ==> (#[trigger] ids@[k]) < i && is_ranked(
                        ss[ids@[k] as int],
                    ),
                forall|k1: int, k2: int| 0 <= k1 < k2 < ids@.len() ==> ids@[k1] != ids@[k2],
                forall|id: int| 0 <= id < i && is_ranked(ss[id]) ==> ids@.contains(id as usize),
                forall|k1: int, k2: int|
                    0 <= k1 < k2 < ids@.len() ==> rank_le(ss, ids@[k1] as int, ids@[k2] as int),
                ids@.len() == count_matching(ss, (|s: UserSession| is_ranked(s)), i as int),
            decreases n - i,
        {
            let ranked = self.sessions[i].is_finished() && self.sessions[i].username.is_some();
            if ranked {
                let mut p: usize = 0;
                while p < ids.len() && self.rank_le_exec(ids[p], i)
                    invariant
                        ss == self.sessions@,
                        i < ss.len(),
                        p <= ids@.len(),
                        forall|k: int|
                            0 <= k < ids@.len() ==> (#[trigger] ids@[k]) < ss.len(),
                        forall|k: int| 0 <= k < p ==> rank_le(ss, ids@[k] as int, i as int),
                    decreases ids@.len() - p,
                {
                    p += 1;
                }
                let ghost old_ids = ids@;
                ids.insert(p, i);
                proof {
                    let t = ids@;
                    let pp = p as int;
                    let ii = i as int;
                    assert(t =~= old_ids.insert(pp, i as usize));
                    assert forall|k: int| 0 <= k < t.len() implies (#[trigger] t[k]) < i + 1
                        && is_ranked(ss[t[k] as int]) by {
                        if k < pp {
                            assert(t[k] == old_ids[k]);
                        } else if k == pp {
                            assert(t[k] == i as usize);
                        } else {
                            assert(t[k] == old_ids[k - 1]);
                        }
                    }
                    assert forall|k1: int, k2: int| 0 <= k1 < k2 < t.len() implies t[k1]
                        != t[k2] by {
                        if k1 < pp && k2 < pp {
                        } else if k1 == pp || k2 == pp {
                            if k1 == pp {
                                assert(t[k2] == old_ids[k2 - 1]);
                                assert(old_ids[k2 - 1] < i);
                            } else {
                                assert(t[k1] == old_ids[k1]);
                                assert(old_ids[k1] < i);
                            }
                        } else if k1 > pp && k2 > pp {
                            assert(t[k1] == old_ids[k1 - 1]);
                            assert(t[k2] == old_ids[k2 - 1]);
                        } else {
                            assert(t[k1] == old_ids[k1]);
                            assert(t[k2] == old_ids[k2 - 1]);
                        }
                    }
                    assert forall|id: int| 0 <= id < i + 1 && is_ranked(ss[id]) implies t.contains(
                        id as usize,
                    ) by {
                        if id == ii {
                            assert(t[pp] == i as usize);
                        } else {
                            assert(old_ids.contains(id as usize));
                            let w = choose|w: int|
                                0 <= w < old_ids.len() && old_ids[w] == id as usize;
                            if w < pp {
                                assert(t[w] == old_ids[w]);
                            } else {
                                assert(t[w + 1] == old_ids[w]);
                            }
                        }
                    }
                    if pp < old_ids.len() {
                        assert(!rank_le(ss, old_ids[pp] as int, ii));
                        lemma_rank_le_total(ss, old_ids[pp] as int, ii);
                        assert(rank_le(ss, ii, old_ids[pp] as int));
                    }
                    assert forall|k1: int, k2: int| 0 <= k1 < k2 < t.len() implies rank_le(
                        ss,
                        t[k1] as int,
                        t[k2] as int,
                    ) by {
                        if k1 < pp && k2 < pp {
                            assert(t[k1] == old_ids[k1]);
                            assert(t[k2] == old_ids[k2]);
                        } else if k1 < pp && k2 == pp {
                            assert(t[k1] == old_ids[k1]);
                            assert(t[k2] == i as usize);
                        } else if k1 < pp && k2 > pp {
                            assert(t[k1] == old_ids[k1]);
                            assert(t[k2] == old_ids[k2 - 1]);
                        } else if k1 == pp {
                            assert(t[k2] == old_ids[k2 - 1]);
                            assert(rank_le(ss, ii, old_ids[pp] as int));
                            if k2 - 1 > pp {
                                assert(rank_le(ss, old_ids[pp] as int, old_ids[k2 - 1] as int));
                                lemma_rank_le_trans(
                                    ss,
                                    ii,
                                    old_ids[pp] as int,
                                    old_ids[k2 - 1] as int,
                                );
                            }
                        } else {
                            assert(t[k1] == old_ids[k1 - 1]);
                            assert(t[k2] == old_ids[k2 - 1]);
                        }
                    }
                }
            }
            i += 1;
        }
        ids
    }

    /// The ranked standings: sessions that are finished and named, ordered
    /// by score descending then finish time ascending (creation order as
    /// the final tiebreak), with dense ranks from one, the question count
    /// as each entry's total, and the entry of `requesting_username`
    /// flagged.  Computed fresh on every call, never cached.
    pub fn generate_leaderboard(&self, requesting_username: &str) -> (r: Vec<LeaderboardEntry>)
        ensures
            exists|ids: Seq<usize>|
                #[trigger] lb_order_ok(self.sessions@, ids) && lb_entries_match(
                    self.sessions@,
                    self.questions@.len() as int,
                    requesting_username@,
                    ids,
                    r@,
                ),
            r@.len() == spec_ranked_count(self.sessions@),
            forall|k: int|
                0 <= k < r@.len() ==> (#[trigger] r@[k]).rank == k + 1 && r@[k].total
                    == self.questions@.len(),
    {
        let ids = self.leaderboard_order();
        let total = self.questions.len();
        let mut out: Vec<LeaderboardEntry> = Vec::new();
        let mut k: usize = 0;
        while k < ids.len()
            invariant
                k <= ids@.len(),
                lb_order_ok(self.sessions@, ids@),
                total == self.questions@.len(),
                out@.len() == k,
                lb_entries_match(
                    self.sessions@,
                    self.questions@.len() as int,
                    requesting_username@,
                    ids@.take(k as int),
                    out@,
                ),
            decreases ids@.len() - k,
        {
            let id = ids[k];
            let sess = &self.sessions[id];
            let username = match &sess.username {
                Some(u) => u.clone(),
                None => {
                    proof {
                        assert(false);
                    }
                    String::new()
                },
            };
            let score = match sess.score {
                Some(v) => v,
                None => 0,
            };
            let is_you = str_eq(username.as_str(), requesting_username);
            out.push(LeaderboardEntry { rank: k + 1, username, score, total, is_you });
            proof {
                assert(ids@.take(k + 1) =~= ids@.take(k as int).push(ids@[k as int]));
            }
            k += 1;
        }
        proof {
            assert(ids@.take(ids@.len() as int) =~= ids@);
        }
        out
    }

    /// The per-question results for one session: an entry for each
    /// answered slot that has a question, in question order.
    pub fn generate_answer_results(&self, user: &UserSession) -> (r: Vec<AnswerResult>)
        ensures
            r@ == spec_answer_results(
                user.answers@,
                self.questions@,
                user.answers@.len() as int,
            ),
    {
        let mut out: Vec<AnswerResult> = Vec::new();
        let mut i: usize = 0;
        let n = user.answers.len();
        while i < n
            invariant
                i <= n,
                n == user.answers@.len(),
                out@ == spec_answer_results(user.answers@, self.questions@, i as int),
            decreases n - i,
        {
            match user.answers[i] {
                Some(ans) => {
                    if i < self.questions.len() {
                        let q = &self.questions[i];
                        out.push(
                            AnswerResult {
                                question_index: i,
                                question_text: q.text.clone(),
                                your_answer: ans,
                                correct_answer: q.correct_answer,
                                is_correct: ans == q.correct_answer,
                                options: clone_options(&q.options),
                            },
                        );
                    }
                },
                None => {},
            }
            i += 1;
        }
        out
    }
}

/// The expected result entry for an answered slot.
pub open spec fn spec_answer_result(
    answers: Seq<Option<usize>>,
    questions: Seq<Question>,
    i: int,
) -> AnswerResult {
    AnswerResult {
        question_index: i as usize,
        question_text: questions[i].text,
        your_answer: answers[i].unwrap(),
        correct_answer: questions[i].correct_answer,
        is_correct: answers[i].unwrap() == questions[i].correct_answer,
        options: questions[i].options,
    }
}

/// The result entries for the first `n` slots: one per answered slot that
/// has a question.
pub open spec fn spec_answer_results(
    answers: Seq<Option<usize>>,
    questions: Seq<Question>,
    n: int,
) -> Seq<AnswerResult>
    decreases n,
{
    if n <= 0 {
        Seq::empty()
    } else {
        let rest = spec_answer_results(answers, questions, n - 1);
        if n - 1 < questions.len() && answers[n - 1] is Some {
            rest.push(spec_answer_result(answers, questions, n - 1))
        } else {
            rest
        }
    }
}

} // verus!
