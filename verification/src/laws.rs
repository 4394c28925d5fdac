//! Properties of the session core that span more than one contract,
//! stated and proved once so a reader need not derive them.

use vstd::prelude::*;

use crate::commands::CommandResult;
use crate::commands::stop_spec;
use crate::handlers::answer_accepted;
use crate::protocol::LeaderboardEntry;
use crate::protocol::ServerMessage;
use crate::question::lemma_score_upto_le;
use crate::question::spec_score;
use crate::state::ServerState;
use crate::state::UserSession;
use crate::state::finish_le;
use crate::state::lb_entries_match;
use crate::state::lb_order_ok;
use crate::state::rank_le;
use crate::state::spec_current_index;
use crate::state::spec_ranked_count;
use crate::state::spec_score_of;
use crate::state::wf;

verus! {

/// Once a session has recorded an answer for its last open slot, every
/// slot is set, its status is `Finished`, and its score is exactly the
/// count of slots holding that question's correct option — never more
/// than the question count.
pub proof fn lemma_final_answer_finishes(
    pre: ServerState,
    post: ServerState,
    id: int,
    qi: usize,
    answer: usize,
    now: u64,
    outbox: Seq<(usize, ServerMessage)>,
)
    requires
        wf(pre),
        0 <= id < pre.sessions@.len(),
        qi == spec_current_index(pre.sessions@[id].answers@),
        qi < pre.sessions@[id].answers@.len(),
        qi + 1 >= pre.questions@.len(),
        answer_accepted(pre, post, id, qi, answer, now, outbox),
    ensures
        post.sessions@[id].status is Finished,
        forall|k: int|
            0 <= k < post.sessions@[id].answers@.len() ==> post.sessions@[id].answers@[k] is Some,
        spec_score_of(post.sessions@[id]) == spec_score(
            post.sessions@[id].answers@,
            pre.questions@,
        ),
        spec_score(post.sessions@[id].answers@, pre.questions@) <= pre.questions@.len(),
{
    let s0 = pre.sessions@[id];
    let s1 = post.sessions@[id];
    lemma_contiguous_prefix(s0.answers@, qi as int);
    assert forall|k: int| 0 <= k < s1.answers@.len() implies s1.answers@[k] is Some by {
        if k != qi {
            assert(s1.answers@[k] == s0.answers@[k]);
        }
    }
    lemma_score_upto_le(s1.answers@, pre.questions@, s1.answers@.len() as int);
    assert(s0.answers@.len() == pre.questions@.len());
}

/// The slots before the derived current index are all set.
proof fn lemma_contiguous_prefix(answers: Seq<Option<usize>>, cur: int)
    requires
        cur == spec_current_index(answers),
    ensures
        forall|k: int| 0 <= k < cur ==> answers[k] is Some,
    decreases answers.len(),
{
    crate::state::lemma_current_index_le(answers);
    if answers.len() > 0 && answers[0] is Some && cur > 0 {
        lemma_contiguous_prefix(answers.drop_first(), cur - 1);
        assert forall|k: int| 0 <= k < cur implies answers[k] is Some by {
            if k > 0 {
                assert(answers.drop_first()[k - 1] is Some);
                assert(answers[k] == answers.drop_first()[k - 1]);
            }
        }
    }
}

/// Leaderboard entries are ordered by score descending and, within one
/// score, by finish time ascending; the ranks are exactly 1 to K with K
/// the number of finished named sessions.
pub proof fn lemma_leaderboard_ordered(
    ss: Seq<UserSession>,
    total: int,
    requester: Seq<char>,
    ids: Seq<usize>,
    entries: Seq<LeaderboardEntry>,
)
    requires
        entries.len() <= usize::MAX,
        lb_order_ok(ss, ids),
        lb_entries_match(ss, total, requester, ids, entries),
    ensures
        entries.len() == spec_ranked_count(ss),
        forall|k: int| 0 <= k < entries.len() ==> (#[trigger] entries[k]).rank == k + 1,
        forall|k1: int, k2: int|
            0 <= k1 < k2 < entries.len() ==> (#[trigger] entries[k1]).score > (
            #[trigger] entries[k2]).score || (entries[k1].score == entries[k2].score && finish_le(
                ss[ids[k1] as int].finished_at,
                ss[ids[k2] as int].finished_at,
            )),
{
    assert forall|k1: int, k2: int| 0 <= k1 < k2 < entries.len() implies (
    #[trigger] entries[k1]).score > (#[trigger] entries[k2]).score || (entries[k1].score
        == entries[k2].score && finish_le(
        ss[ids[k1] as int].finished_at,
        ss[ids[k2] as int].finished_at,
    )) by {
        assert(rank_le(ss, ids[k1] as int, ids[k2] as int));
        assert(entries[k1].score == spec_score_of(ss[ids[k1] as int]));
        assert(entries[k2].score == spec_score_of(ss[ids[k2] as int]));
    }
}

/// `stop` moves the server to `Finished` exactly once: a second `stop`
/// changes nothing and yields the not-in-progress error.
pub proof fn lemma_stop_once(
    pre: ServerState,
    post1: ServerState,
    res1: CommandResult,
    ob1: Seq<(usize, ServerMessage)>,
    post2: ServerState,
    res2: CommandResult,
    ob2: Seq<(usize, ServerMessage)>,
)
    requires
        pre.status is InProgress,
        stop_spec(pre, post1, res1, ob1),
        stop_spec(post1, post2, res2, ob2),
    ensures
        post1.status is Finished,
        post2 == post1,
        (res2 matches CommandResult::Error(m) && m@ == "Quiz is not in progress."@),
{
}

/// While the server sits in the lobby with no named session, `start` (and
/// equally `stop`) fails and the status stays `Lobby`.
pub proof fn lemma_start_needs_players(
    pre: ServerState,
    post: ServerState,
    res: CommandResult,
    ob: Seq<(usize, ServerMessage)>,
)
    requires
        pre.status is Lobby,
        crate::state::spec_named_count(pre.sessions@) == 0,
        crate::commands::start_spec(pre, post, res, ob),
    ensures
        post == pre,
        post.status is Lobby,
        (res matches CommandResult::Error(m) && m@ == "No users have joined yet."@),
{
}

} // verus!
