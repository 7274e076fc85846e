//! Votes on comments.

use vstd::prelude::*;
use vstd::string::*;
use crate::format::TextFormat;
use crate::status::Status;
use crate::text::{
    dec_int, i64_text, lemma_ended_line, split,
};

verus! {

#[derive(Debug)]
pub struct VoteRequest {
    pub value: i64,
}

pub struct VoteResponse {
    pub voted: bool,
    pub value: i64,
}

impl TextFormat for VoteResponse {
    open spec fn text(&self) -> Seq<char> {
        if self.voted {
            "voted: "@ + (if self.value > 0 {
                "+1"@
            } else {
                "-1"@
            }) + "\n"@
        } else {
            "vote removed\n"@
        }
    }

    open spec fn renders(&self) -> bool {
        true
    }

    fn to_text(&self) -> (r: String) {
        if self.voted {
            let mut s = String::from_str("voted: ");
            s.append(
                if self.value > 0 {
                    "+1"
                } else {
                    "-1"
                },
            );
            s.append("\n");
            s
        } else {
            String::from_str("vote removed\n")
        }
    }
}

pub struct VoteSummary {
    pub up: i64,
    pub down: i64,
    pub total: i64,
    pub your_vote: Option<i64>,
}

impl TextFormat for VoteSummary {
    open spec fn text(&self) -> Seq<char> {
        "+"@ + dec_int(self.up as int) + " / -"@ + dec_int(self.down as int) + " (total: "@ + dec_int(self.total as int) + ")"@ + (match self.your_vote {
            Some(v) => if v == 1 {
                " (you: +1)"@
            } else if v == -1 {
                " (you: -1)"@
            } else {
                ""@
            },
            None => ""@,
        }) + "\n"@
    }

    open spec fn renders(&self) -> bool {
        true
    }

    fn to_text(&self) -> (r: String) {
        let mut s = String::from_str("+");
        s.append(i64_text(self.up).as_str());
        s.append(" / -");
        s.append(i64_text(self.down).as_str());
        s.append(" (total: ");
        s.append(i64_text(self.total).as_str());
        s.append(")");
        s.append(match self.your_vote {
            Some(v) => if v == 1 {
                " (you: +1)"
            } else if v == -1 {
                " (you: -1)"
            } else {
                ""
            },
            None => "",
        });
        s.append("\n");
        s
    }
}

/// A vote is up or down by one; any other value is a bad request.
pub fn check_vote(body: &VoteRequest) -> (r: Result<(), Status>)
    ensures
        match r {
            Ok(_) => body.value == 1 || body.value == -1,
            Err(e) => body.value != 1 && body.value != -1 && e == Status::BadRequest,
        },
{
    if body.value != 1 && body.value != -1 {
        Err(Status::BadRequest)
    } else {
        Ok(())
    }
}

/// A comment that is voted on has to exist.
pub fn verify_comment(exists_in_db: bool) -> (r: Result<(), Status>)
    ensures
        match r {
            Ok(_) => exists_in_db,
            Err(e) => !exists_in_db && e == Status::NotFound,
        },
{
    if exists_in_db {
        Ok(())
    } else {
        Err(Status::NotFound)
    }
}

/// A change of the votes.
#[derive(Debug)]
pub enum VoteWrite {
    /// Set an agent's vote, in place of an earlier one.
    Cast { agent_id: String, comment_id: String, value: i64 },
    Remove { agent_id: String, comment_id: String },
}

/// What a change says.
pub enum VoteWriteView {
    Cast { agent_id: Seq<char>, comment_id: Seq<char>, value: int },
    Remove { agent_id: Seq<char>, comment_id: Seq<char> },
}

impl View for VoteWrite {
    type V = VoteWriteView;

    open spec fn view(&self) -> VoteWriteView {
        match self {
            VoteWrite::Cast { agent_id, comment_id, value } => VoteWriteView::Cast {
                agent_id: agent_id@,
                comment_id: comment_id@,
                value: *value as int,
            },
            VoteWrite::Remove { agent_id, comment_id } => VoteWriteView::Remove {
                agent_id: agent_id@,
                comment_id: comment_id@,
            },
        }
    }
}

/// Vote on a comment. The value is checked before the comment is looked for.
pub fn vote(body: &VoteRequest, comment_exists: bool, agent_id: &str, comment_id: &str) -> (r: Result<
    (VoteWrite, VoteResponse),
    Status,
>)
    ensures
        if body.value != 1 && body.value != -1 {
            r matches Err(e) && e == Status::BadRequest
        } else if !comment_exists {
            r matches Err(e) && e == Status::NotFound
        } else {
            r matches Ok(p) && {
                &&& p.0@ == (VoteWriteView::Cast {
                    agent_id: agent_id@,
                    comment_id: comment_id@,
                    value: body.value as int,
                })
                &&& p.1.voted
                &&& p.1.value == body.value
            }
        },
{
    match check_vote(body) {
        Ok(_) => {},
        Err(e) => {
            return Err(e);
        },
    }
    match verify_comment(comment_exists) {
        Ok(_) => {},
        Err(e) => {
            return Err(e);
        },
    }
    Ok(
        (
            VoteWrite::Cast {
                agent_id: agent_id.to_owned(),
                comment_id: comment_id.to_owned(),
                value: body.value,
            },
            VoteResponse { voted: true, value: body.value },
        ),
    )
}

/// Take a vote back. It is no error if there was none.
pub fn unvote(comment_exists: bool, agent_id: &str, comment_id: &str) -> (r: Result<VoteWrite, Status>)
    ensures
        if comment_exists {
            r matches Ok(w) && w@ == (VoteWriteView::Remove {
                agent_id: agent_id@,
                comment_id: comment_id@,
            })
        } else {
            r matches Err(e) && e == Status::NotFound
        },
{
    match verify_comment(comment_exists) {
        Ok(_) => Ok(
            VoteWrite::Remove {
                agent_id: agent_id.to_owned(),
                comment_id: comment_id.to_owned(),
            },
        ),
        Err(e) => Err(e),
    }
}

/// The votes on a comment, from their counts.
pub fn get_votes(up: i64, down: i64, your_vote: Option<i64>) -> (r: VoteSummary)
    requires
        up >= 0,
        down >= 0,
    ensures
        r.up == up,
        r.down == down,
        r.total == up - down,
        r.your_vote == your_vote,
{
    VoteSummary { up, down, total: up - down, your_vote }
}

// ---------------------------------------------------------------------------
// What votes do
// ---------------------------------------------------------------------------

/// The vote of each agent on each comment.
pub type Votes = Map<(Seq<char>, Seq<char>), int>;

/// What a change does.
pub open spec fn apply_vote(v: Votes, w: VoteWriteView) -> Votes {
    match w {
        VoteWriteView::Cast { agent_id, comment_id, value } => v.insert(
            (agent_id, comment_id),
            value,
        ),
        VoteWriteView::Remove { agent_id, comment_id } => v.remove((agent_id, comment_id)),
    }
}

pub open spec fn vote_of(v: Votes, agent_id: Seq<char>, comment_id: Seq<char>) -> Option<int> {
    if v.dom().contains((agent_id, comment_id)) {
        Some(v[(agent_id, comment_id)])
    } else {
        None
    }
}

/// How many of the given agents voted so on a comment.
pub open spec fn count_votes(v: Votes, comment_id: Seq<char>, value: int, agents: Seq<Seq<char>>) -> nat
    decreases agents.len(),
{
    if agents.len() == 0 {
        0
    } else {
        count_votes(v, comment_id, value, agents.drop_last()) + (if vote_of(
            v,
            agents.last(),
            comment_id,
        ) == Some(value) {
            1nat
        } else {
            0nat
        })
    }
}

/// An agent has one vote on a comment: the last it gave. Voting again replaces it, voting the same
/// again changes nothing, and no other vote is touched.
pub proof fn law_last_vote_counts(
    v: Votes,
    agent_id: Seq<char>,
    comment_id: Seq<char>,
    first: int,
    second: int,
)
    ensures
        ({
            let set_first = VoteWriteView::Cast { agent_id, comment_id, value: first };
            let set_second = VoteWriteView::Cast { agent_id, comment_id, value: second };
            let after = apply_vote(apply_vote(v, set_first), set_second);
            &&& vote_of(after, agent_id, comment_id) == Some(second)
            &&& after == apply_vote(v, set_second)
            &&& forall|a: Seq<char>, c: Seq<char>|
                (a, c) != (agent_id, comment_id) ==> #[trigger] vote_of(after, a, c) == vote_of(
                    v,
                    a,
                    c,
                )
        }),
{
    let set_first = VoteWriteView::Cast { agent_id, comment_id, value: first };
    let set_second = VoteWriteView::Cast { agent_id, comment_id, value: second };
    assert(apply_vote(apply_vote(v, set_first), set_second) =~= apply_vote(v, set_second));
}

/// A vote that was taken back is gone, and no other vote is touched. Taking back a vote that was the
/// first leaves everything as it was.
pub proof fn law_vote_can_be_taken_back(
    v: Votes,
    agent_id: Seq<char>,
    comment_id: Seq<char>,
    value: int,
)
    ensures
        ({
            let set_vote = VoteWriteView::Cast { agent_id, comment_id, value };
            let remove = VoteWriteView::Remove { agent_id, comment_id };
            let after = apply_vote(apply_vote(v, set_vote), remove);
            &&& vote_of(after, agent_id, comment_id) is None
            &&& vote_of(v, agent_id, comment_id) is None ==> after == v
            &&& forall|a: Seq<char>, c: Seq<char>|
                (a, c) != (agent_id, comment_id) ==> #[trigger] vote_of(after, a, c) == vote_of(
                    v,
                    a,
                    c,
                )
        }),
{
    let set_vote = VoteWriteView::Cast { agent_id, comment_id, value };
    let remove = VoteWriteView::Remove { agent_id, comment_id };
    if vote_of(v, agent_id, comment_id) is None {
        assert(apply_vote(apply_vote(v, set_vote), remove) =~= v);
    }
}

/// A vote of an agent that had none adds one to the count of its value and leaves the count of
/// every other value.
pub proof fn law_vote_is_counted_once(
    v: Votes,
    agent_id: Seq<char>,
    comment_id: Seq<char>,
    value: int,
    counted: int,
    agents: Seq<Seq<char>>,
)
    requires
        agents.no_duplicates(),
        vote_of(v, agent_id, comment_id) is None,
    ensures
        count_votes(
            apply_vote(v, VoteWriteView::Cast { agent_id, comment_id, value }),
            comment_id,
            counted,
            agents,
        ) == count_votes(v, comment_id, counted, agents) + (if counted == value && agents.contains(
            agent_id,
        ) {
            1nat
        } else {
            0nat
        }),
    decreases agents.len(),
{
    if agents.len() > 0 {
        let front = agents.drop_last();
        let last = agents.last();
        assert(front.no_duplicates());
        law_vote_is_counted_once(v, agent_id, comment_id, value, counted, front);
        assert(agents.contains(agent_id) <==> front.contains(agent_id) || last == agent_id) by {
            if front.contains(agent_id) {
                let j = choose|j: int| 0 <= j < front.len() && front[j] == agent_id;
                assert(agents[j] == agent_id);
            }
            if last == agent_id {
                assert(agents[agents.len() - 1] == agent_id);
            }
            if agents.contains(agent_id) {
                let j = choose|j: int| 0 <= j < agents.len() && agents[j] == agent_id;
                if j < front.len() {
                    assert(front[j] == agent_id);
                }
            }
        }
        if front.contains(agent_id) {
            let j = choose|j: int| 0 <= j < front.len() && front[j] == agent_id;
            assert(agents[j] != agents[agents.len() - 1]);
        }
    }
}

/// What a value says in contracts is what its fields say, each in its own place.
pub proof fn law_views_show_every_field(vote_write: VoteWrite)
    ensures
        vote_write@ == (match vote_write {
            VoteWrite::Cast { agent_id, comment_id, value } => VoteWriteView::Cast {
                agent_id: agent_id@,
                comment_id: comment_id@,
                value: value as int,
            },
            VoteWrite::Remove { agent_id, comment_id } => VoteWriteView::Remove {
                agent_id: agent_id@,
                comment_id: comment_id@,
            },
        }),
{
}

/// The votes on a comment are shown in a line: how many are for it, how many against it, what that
/// comes to, and how the one who asks voted.
pub proof fn law_votes_are_shown_in_a_line(v: VoteSummary)
    ensures
        split(v.text(), '\n') == split("+"@ + dec_int(v.up as int) + " / -"@ + dec_int(v.down as int) + " (total: "@ + dec_int(v.total as int) + ")"@ + (if v.your_vote == Some(1i64) { " (you: +1)"@ } else if v.your_vote == Some(-1i64) { " (you: -1)"@ } else { seq![] }), '\n')
            + seq![Seq::<char>::empty()],
{
    reveal_strlit("");
    reveal_strlit("\n");
    let line0 = "+"@ + dec_int(v.up as int) + " / -"@ + dec_int(v.down as int) + " (total: "@ + dec_int(v.total as int) + ")"@ + (if v.your_vote == Some(1i64) { " (you: +1)"@ } else if v.your_vote == Some(-1i64) { " (you: -1)"@ } else { seq![] });
    let end = Seq::<char>::empty();
    assert(v.text() =~= line0 + seq!['\n'] + end);
    lemma_ended_line(line0, end);
}

/// A vote is shown as one for or one against, whatever it counts, and so is that it was taken back.
pub proof fn law_vote_is_shown_as_for_or_against(v: VoteResponse)
    ensures
        v.voted && v.value > 0 ==> v.text() == "voted: +1\n"@,
        v.voted && v.value <= 0 ==> v.text() == "voted: -1\n"@,
        !v.voted ==> v.text() == "vote removed\n"@,
{
    reveal_strlit("voted: ");
    reveal_strlit("+1");
    reveal_strlit("-1");
    reveal_strlit("\n");
    reveal_strlit("voted: +1\n");
    reveal_strlit("voted: -1\n");
    if v.voted && v.value > 0 {
        assert(v.text() =~= "voted: +1\n"@);
    }
    if v.voted && v.value <= 0 {
        assert(v.text() =~= "voted: -1\n"@);
    }
}

/// There is a text for every answer; a list has one where each of its items has.
pub proof fn law_answers_can_be_shown(vote_response: VoteResponse, vote_summary: VoteSummary)
    ensures
        vote_response.renders(),
        vote_summary.renders(),
{
}

} // verus!
