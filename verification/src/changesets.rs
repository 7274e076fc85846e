//! Changesets: proposed commits, and what becomes of them.

use vstd::prelude::*;
use vstd::string::*;
use crate::format::{
    all_render, can_shorten, list_text, render_list, shorten, shortened, TextFormat,
};
use crate::log::LogEntry;
use crate::status::{filter_of, filter_view, found, given, status_filter, Status};
use crate::text::{
    chars_of, dec, lemma_ended_line, same_text, split, string_of, texts, trim, trim_chars,
    usize_text,
};

verus! {

// ---------------------------------------------------------------------------
// Types
// ---------------------------------------------------------------------------

#[derive(Debug)]
pub struct ChangesetPath {
    pub owner: String,
    pub repo: String,
    pub changeset_id: String,
}

#[derive(Debug)]
pub struct RepoPath {
    pub owner: String,
    pub repo: String,
}

#[derive(Debug)]
pub struct CreateChangeset {
    pub description: String,
}

#[derive(Debug)]
pub struct ListChangesetsParams {
    pub status: String,
}

pub fn default_status() -> (r: String)
    ensures
        r@ == "proposed"@,
{
    String::from_str("proposed")
}

pub struct ChangesetResponse {
    pub id: String,
    pub repo_owner: String,
    pub repo_name: String,
    pub author_name: String,
    pub description: String,
    pub ref_name: String,
    pub base_commit: String,
    pub status: String,
    pub push_url: String,
    pub created_at: String,
}

/// What an answer about a changeset says.
#[verifier::ext_equal]
pub struct ChangesetResponseView {
    pub id: Seq<char>,
    pub repo_owner: Seq<char>,
    pub repo_name: Seq<char>,
    pub author_name: Seq<char>,
    pub description: Seq<char>,
    pub ref_name: Seq<char>,
    pub base_commit: Seq<char>,
    pub status: Seq<char>,
    pub push_url: Seq<char>,
    pub created_at: Seq<char>,
}

impl View for ChangesetResponse {
    type V = ChangesetResponseView;

    open spec fn view(&self) -> ChangesetResponseView {
        ChangesetResponseView {
            id: self.id@,
            repo_owner: self.repo_owner@,
            repo_name: self.repo_name@,
            author_name: self.author_name@,
            description: self.description@,
            ref_name: self.ref_name@,
            base_commit: self.base_commit@,
            status: self.status@,
            push_url: self.push_url@,
            created_at: self.created_at@,
        }
    }
}

impl TextFormat for ChangesetResponse {
    open spec fn text(&self) -> Seq<char> {
        "["@ + self.status@ + "] "@ + self.description@ + " by "@ + self.author_name@ + "\n  ref: "@ + self.ref_name@ + "\n  base: "@ + shortened(self.base_commit@) + "\n  push: git push "@ + self.push_url@ + " "@ + self.ref_name@ + "\n"@
    }

    open spec fn renders(&self) -> bool {
        can_shorten(self.base_commit@)
    }

    fn to_text(&self) -> (r: String) {
        let mut s = String::from_str("[");
        s.append(self.status.as_str());
        s.append("] ");
        s.append(self.description.as_str());
        s.append(" by ");
        s.append(self.author_name.as_str());
        s.append("\n  ref: ");
        s.append(self.ref_name.as_str());
        s.append("\n  base: ");
        s.append(shorten(self.base_commit.as_str()));
        s.append("\n  push: git push ");
        s.append(self.push_url.as_str());
        s.append(" ");
        s.append(self.ref_name.as_str());
        s.append("\n");
        s
    }
}

pub struct ChangesetList(pub Vec<ChangesetResponse>);

impl TextFormat for ChangesetList {
    open spec fn text(&self) -> Seq<char> {
        list_text(self.0@, "(no changesets)\n"@)
    }

    open spec fn renders(&self) -> bool {
        all_render(self.0@)
    }

    fn to_text(&self) -> (r: String) {
        render_list(&self.0, "(no changesets)\n")
    }
}

pub struct ChangesetDetail {
    pub changeset: ChangesetResponse,
    pub commits: Vec<LogEntry>,
}

/// The lines that show the commits of a changeset.
pub open spec fn commit_lines(commits: Seq<LogEntry>) -> Seq<char>
    decreases commits.len(),
{
    if commits.len() == 0 {
        seq![]
    } else {
        commit_lines(commits.drop_last()) + ("    "@ + shortened(commits.last().commit_id@) + " "@
            + commits.last().message@ + "\n"@)
    }
}

/// The commits of a changeset, with their number.
pub open spec fn commits_text(commits: Seq<LogEntry>) -> Seq<char> {
    if commits.len() == 0 {
        "  (no commits pushed yet)\n"@
    } else {
        ("  "@ + dec(commits.len()) + " commit"@ + (if commits.len() == 1 {
            ""@
        } else {
            "s"@
        }) + ":\n"@) + commit_lines(commits)
    }
}

pub open spec fn commits_shorten(commits: Seq<LogEntry>) -> bool {
    forall|i: int| 0 <= i < commits.len() ==> can_shorten((#[trigger] commits[i]).commit_id@)
}

fn render_commit_lines(commits: &Vec<LogEntry>) -> (r: String)
    requires
        commits_shorten(commits@),
    ensures
        r@ == commit_lines(commits@),
{
    let mut s = String::new();
    let mut i: usize = 0;
    proof {
        assert(commits@.take(0) =~= seq![]);
    }
    while i < commits.len()
        invariant
            i <= commits@.len(),
            commits_shorten(commits@),
            s@ == commit_lines(commits@.take(i as int)),
        decreases commits@.len() - i,
    {
        let c = &commits[i];
        let mut line = String::from_str("    ");
        line.append(shorten(c.commit_id.as_str()));
        line.append(" ");
        line.append(c.message.as_str());
        line.append("\n");
        s.append(line.as_str());
        proof {
            assert(commits@.take(i as int + 1).drop_last() =~= commits@.take(i as int));
        }
        i += 1;
    }
    proof {
        assert(commits@.take(i as int) =~= commits@);
    }
    s
}

fn render_commits(commits: &Vec<LogEntry>) -> (r: String)
    requires
        commits_shorten(commits@),
    ensures
        r@ == commits_text(commits@),
{
    if commits.len() == 0 {
        return String::from_str("  (no commits pushed yet)\n");
    }
    let mut s = String::from_str("  ");
    s.append(usize_text(commits.len()).as_str());
    s.append(" commit");
    s.append(
        if commits.len() == 1 {
            ""
        } else {
            "s"
        },
    );
    s.append(":\n");
    s.append(render_commit_lines(commits).as_str());
    s
}

impl TextFormat for ChangesetDetail {
    open spec fn text(&self) -> Seq<char> {
        self.changeset.text() + commits_text(self.commits@)
    }

    open spec fn renders(&self) -> bool {
        self.changeset.renders() && commits_shorten(self.commits@)
    }

    fn to_text(&self) -> (r: String) {
        let mut s = self.changeset.to_text();
        s.append(render_commits(&self.commits).as_str());
        s
    }
}

// ---------------------------------------------------------------------------
// Proposing and listing
// ---------------------------------------------------------------------------

/// The ref that a changeset is pushed to.
pub open spec fn changeset_ref(id: Seq<char>) -> Seq<char> {
    "refs/changesets/"@ + id
}

/// Where a repository is pushed to.
pub open spec fn push_url_of(owner: Seq<char>, repo: Seq<char>) -> Seq<char> {
    "/git/"@ + owner + "/"@ + repo
}

/// Where a repository is pushed to.
pub fn push_url(owner: &str, repo: &str) -> (r: String)
    ensures
        r@ == push_url_of(owner@, repo@),
{
    let mut s = String::from_str("/git/");
    s.append(owner);
    s.append("/");
    s.append(repo);
    s
}

/// A changeset as it is stored when it is proposed.
#[derive(Debug)]
pub struct NewChangeset {
    pub id: String,
    pub repo_id: String,
    pub author_id: String,
    pub description: String,
    pub ref_name: String,
    pub base_commit: String,
}

/// A changeset has to have a description, and the repository has to exist.
pub fn check_changeset(body: &CreateChangeset, repo_id: Option<String>) -> (r: Result<String, Status>)
    ensures
        if body.description@.len() == 0 {
            r matches Err(e) && e == Status::BadRequest
        } else {
            match repo_id {
                None => r matches Err(e) && e == Status::NotFound,
                Some(id) => r matches Ok(i) && i == id,
            }
        },
{
    match given(body.description.as_str()) {
        Ok(_) => found(repo_id),
        Err(e) => Err(e),
    }
}

/// Any authenticated agent can propose a changeset on any repo. It starts from the repository's
/// current head, and gets a ref of its own.
pub fn create_changeset(
    path: RepoPath,
    body: CreateChangeset,
    id: String,
    repo_id: String,
    author_id: String,
    author_name: String,
    base_commit: String,
) -> (r: (NewChangeset, ChangesetResponse))
    ensures
        r.0.id == id,
        r.0.repo_id == repo_id,
        r.0.author_id == author_id,
        r.0.description == body.description,
        r.0.ref_name@ == changeset_ref(id@),
        r.0.base_commit == base_commit,
        r.1@ == (ChangesetResponseView {
            id: id@,
            repo_owner: path.owner@,
            repo_name: path.repo@,
            author_name: author_name@,
            description: body.description@,
            ref_name: changeset_ref(id@),
            base_commit: base_commit@,
            status: "proposed"@,
            push_url: push_url_of(path.owner@, path.repo@),
            created_at: seq![],
        }),
{
    let mut ref_name = String::from_str("refs/changesets/");
    ref_name.append(id.as_str());
    let url = push_url(path.owner.as_str(), path.repo.as_str());
    let row = NewChangeset {
        id: id.clone(),
        repo_id,
        author_id,
        description: body.description.clone(),
        ref_name: ref_name.clone(),
        base_commit: base_commit.clone(),
    };
    let response = ChangesetResponse {
        id,
        repo_owner: path.owner,
        repo_name: path.repo,
        author_name,
        description: body.description,
        ref_name,
        base_commit,
        status: String::from_str("proposed"),
        push_url: url,
        created_at: String::new(),
    };
    (row, response)
}

/// The statuses of a changeset.
pub open spec fn changeset_statuses() -> Seq<Seq<char>> {
    seq!["proposed"@, "accepted"@, "rejected"@, "withdrawn"@]
}

/// The status by which a list of changesets is filtered.
pub fn list_changesets(params: &ListChangesetsParams) -> (r: Result<Option<String>, Status>)
    ensures
        filter_view(r) == filter_of(params.status@, changeset_statuses()),
{
    let mut statuses: Vec<String> = Vec::new();
    statuses.push(String::from_str("proposed"));
    statuses.push(String::from_str("accepted"));
    statuses.push(String::from_str("rejected"));
    statuses.push(String::from_str("withdrawn"));
    proof {
        assert(texts(statuses@) =~= changeset_statuses());
    }
    status_filter(params.status.as_str(), &statuses)
}

/// The commits that are on the one ref and not on the other, for git.
pub fn log_range_args(base: &str, tip: &str) -> (r: Vec<String>)
    ensures
        texts(r@) == seq![
            "log"@,
            "--format=%H%x00%P%x00%an%x00%aI%x00%s"@,
            base@ + ".."@ + tip@,
        ],
{
    let mut range = String::from_str(base);
    range.append("..");
    range.append(tip);
    let mut args: Vec<String> = Vec::new();
    args.push(String::from_str("log"));
    args.push(String::from_str("--format=%H%x00%P%x00%an%x00%aI%x00%s"));
    args.push(range);
    proof {
        assert(texts(args@) =~= seq![
            "log"@,
            "--format=%H%x00%P%x00%an%x00%aI%x00%s"@,
            base@ + ".."@ + tip@,
        ]);
    }
    args
}

// ---------------------------------------------------------------------------
// Deciding
// ---------------------------------------------------------------------------

pub struct AcceptResponse {
    pub status: String,
    pub new_head: String,
}

impl TextFormat for AcceptResponse {
    open spec fn text(&self) -> Seq<char> {
        "accepted, new head: "@ + self.new_head@ + "\n"@
    }

    open spec fn renders(&self) -> bool {
        true
    }

    fn to_text(&self) -> (r: String) {
        let mut s = String::from_str("accepted, new head: ");
        s.append(self.new_head.as_str());
        s.append("\n");
        s
    }
}

/// A changeset that is still proposed, with the owner of its repository and its author.
#[derive(Debug)]
pub struct ProposedChangeset {
    pub owner_id: String,
    pub author_id: String,
    pub ref_name: String,
    pub base_commit: String,
}

/// What can become of a proposed changeset.
#[derive(Debug, Clone, Copy, PartialEq, Eq, Structural)]
pub enum Decision {
    Accept,
    Reject,
    Withdraw,
}

/// The status that a decision leads to.
pub open spec fn decided_status(d: Decision) -> Seq<char> {
    match d {
        Decision::Accept => "accepted"@,
        Decision::Reject => "rejected"@,
        Decision::Withdraw => "withdrawn"@,
    }
}

/// The agent that may take a decision: the owner of the repository accepts and rejects, the author
/// withdraws.
pub open spec fn decider(d: Decision, owner_id: Seq<char>, author_id: Seq<char>) -> Seq<char> {
    match d {
        Decision::Accept => owner_id,
        Decision::Reject => owner_id,
        Decision::Withdraw => author_id,
    }
}

impl Decision {
    /// The status that the decision leads to.
    pub fn status(&self) -> (r: &'static str)
        ensures
            r@ == decided_status(*self),
    {
        match self {
            Decision::Accept => "accepted",
            Decision::Reject => "rejected",
            Decision::Withdraw => "withdrawn",
        }
    }
}

/// A decision needs a changeset that is still proposed, and the agent that may take it.
fn decide(decision: Decision, row: Option<ProposedChangeset>, agent_id: &str) -> (r: Result<
    ProposedChangeset,
    Status,
>)
    ensures
        match row {
            None => r matches Err(e) && e == Status::NotFound,
            Some(c) => if decider(decision, c.owner_id@, c.author_id@) == agent_id@ {
                r matches Ok(p) && p == c
            } else {
                r matches Err(e) && e == Status::Forbidden
            },
        },
{
    match row {
        None => Err(Status::NotFound),
        Some(c) => {
            let allowed = match decision {
                Decision::Accept => same_text(c.owner_id.as_str(), agent_id),
                Decision::Reject => same_text(c.owner_id.as_str(), agent_id),
                Decision::Withdraw => same_text(c.author_id.as_str(), agent_id),
            };
            if allowed {
                Ok(c)
            } else {
                Err(Status::Forbidden)
            }
        },
    }
}

/// The owner of the repository accepts a changeset: its commits, from its base to its ref, are to be
/// picked onto main.
pub fn accept_changeset(row: Option<ProposedChangeset>, agent_id: &str) -> (r: Result<
    ProposedChangeset,
    Status,
>)
    ensures
        match row {
            None => r matches Err(e) && e == Status::NotFound,
            Some(c) => if c.owner_id@ == agent_id@ {
                r matches Ok(p) && p == c
            } else {
                r matches Err(e) && e == Status::Forbidden
            },
        },
{
    decide(Decision::Accept, row, agent_id)
}

/// The names of the commits, the last first.
pub open spec fn oldest_first(commits: Seq<LogEntry>) -> Seq<Seq<char>> {
    Seq::new(commits.len(), |i: int| commits[commits.len() - 1 - i].commit_id@)
}

/// The commits to pick, in chronological order — oldest first, where the history has them newest
/// first. A changeset without commits cannot be accepted.
pub fn commits_to_pick(commits: &Vec<LogEntry>) -> (r: Result<Vec<String>, Status>)
    ensures
        if commits@.len() == 0 {
            r matches Err(e) && e == Status::UnprocessableEntity
        } else {
            r matches Ok(shas) && texts(shas@) == oldest_first(commits@)
        },
        r matches Ok(shas) ==> shas@.len() == commits@.len() && forall|i: int|
            0 <= i < shas@.len() ==> (#[trigger] shas@[i])@ == commits@[commits@.len() - 1
                - i].commit_id@,
{
    if commits.len() == 0 {
        return Err(Status::UnprocessableEntity);
    }
    let mut shas: Vec<String> = Vec::new();
    let mut i: usize = commits.len();
    while i > 0
        invariant
            i <= commits@.len(),
            shas@.len() == commits@.len() - i,
            forall|j: int|
                0 <= j < shas@.len() ==> (#[trigger] shas@[j])@ == commits@[commits@.len() - 1
                    - j].commit_id@,
        decreases i,
    {
        i -= 1;
        shas.push(commits[i].commit_id.clone());
    }
    proof {
        assert(texts(shas@) =~= oldest_first(commits@));
    }
    Ok(shas)
}

/// The answer once the commits were picked: where they could not be, there is a conflict, and the
/// changeset stays as it is.
pub fn accepted(picked: Result<String, String>) -> (r: Result<AcceptResponse, Status>)
    ensures
        match picked {
            Ok(head) => r matches Ok(a) && a.status@ == "accepted"@ && a.new_head@ == head@,
            Err(_) => r matches Err(e) && e == Status::Conflict,
        },
{
    match picked {
        Ok(head) => Ok(AcceptResponse { status: String::from_str("accepted"), new_head: head }),
        Err(_) => Err(Status::Conflict),
    }
}

/// The owner of the repository rejects a changeset. Its ref is to be deleted.
pub fn reject_changeset(row: Option<ProposedChangeset>, agent_id: &str) -> (r: Result<String, Status>)
    ensures
        match row {
            None => r matches Err(e) && e == Status::NotFound,
            Some(c) => if c.owner_id@ == agent_id@ {
                r matches Ok(name) && name == c.ref_name
            } else {
                r matches Err(e) && e == Status::Forbidden
            },
        },
{
    match decide(Decision::Reject, row, agent_id) {
        Ok(c) => Ok(c.ref_name),
        Err(e) => Err(e),
    }
}

/// The author withdraws a changeset. Its ref is to be deleted.
pub fn withdraw_changeset(row: Option<ProposedChangeset>, agent_id: &str) -> (r: Result<
    String,
    Status,
>)
    ensures
        match row {
            None => r matches Err(e) && e == Status::NotFound,
            Some(c) => if c.author_id@ == agent_id@ {
                r matches Ok(name) && name == c.ref_name
            } else {
                r matches Err(e) && e == Status::Forbidden
            },
        },
{
    match decide(Decision::Withdraw, row, agent_id) {
        Ok(c) => Ok(c.ref_name),
        Err(e) => Err(e),
    }
}

/// A changeset as it is stored.
#[verifier::ext_equal]
pub struct ChangesetRecord {
    pub owner_id: Seq<char>,
    pub author_id: Seq<char>,
    pub status: Seq<char>,
}

/// What a decision does to a changeset: its status, where the agent may take it and the changeset is
/// still proposed; else the refusal.
pub open spec fn decide_record(d: Decision, c: ChangesetRecord, agent_id: Seq<char>) -> Result<
    ChangesetRecord,
    Status,
> {
    if c.status != "proposed"@ {
        Err(Status::NotFound)
    } else if decider(d, c.owner_id, c.author_id) != agent_id {
        Err(Status::Forbidden)
    } else {
        Ok(ChangesetRecord { status: decided_status(d), ..c })
    }
}

/// A changeset is decided once: whatever was decided first, no later decision of anyone's finds it.
pub proof fn law_decision_is_final(
    first: Decision,
    second: Decision,
    c: ChangesetRecord,
    one: Seq<char>,
    other: Seq<char>,
)
    requires
        decide_record(first, c, one) is Ok,
    ensures
        decide_record(second, decide_record(first, c, one)->Ok_0, other) == Err::<
            ChangesetRecord,
            Status,
        >(Status::NotFound),
{
    reveal_strlit("proposed");
    reveal_strlit("accepted");
    reveal_strlit("rejected");
    reveal_strlit("withdrawn");
    assert("proposed"@[0] != "accepted"@[0]);
    assert("proposed"@[0] != "rejected"@[0]);
    assert("proposed"@.len() != "withdrawn"@.len());
}

/// Only the owner of the repository accepts or rejects, and only the author withdraws.
pub proof fn law_decisions_have_deciders(d: Decision, c: ChangesetRecord, agent_id: Seq<char>)
    requires
        decide_record(d, c, agent_id) is Ok,
    ensures
        d == Decision::Withdraw ==> agent_id == c.author_id,
        d != Decision::Withdraw ==> agent_id == c.owner_id,
{
}

// ---------------------------------------------------------------------------
// Picking
// ---------------------------------------------------------------------------

/// What to do next while commits are picked onto main in a worktree.
#[derive(Debug)]
pub enum PickStep {
    /// Pick this commit.
    Pick(String),
    /// Break the pick off, remove the worktree, and fail.
    Abort(String),
    /// Read the new head.
    ReadHead,
    /// Point main to this commit.
    UpdateMain(String),
    /// Remove the worktree; this is the new head.
    Done(String),
    Fail(String),
}

/// What a step says.
pub enum PickStepView {
    Pick(Seq<char>),
    Abort(Seq<char>),
    ReadHead,
    UpdateMain(Seq<char>),
    Done(Seq<char>),
    Fail(Seq<char>),
}

impl View for PickStep {
    type V = PickStepView;

    open spec fn view(&self) -> PickStepView {
        match self {
            PickStep::Pick(s) => PickStepView::Pick(s@),
            PickStep::Abort(s) => PickStepView::Abort(s@),
            PickStep::ReadHead => PickStepView::ReadHead,
            PickStep::UpdateMain(s) => PickStepView::UpdateMain(s@),
            PickStep::Done(s) => PickStepView::Done(s@),
            PickStep::Fail(s) => PickStepView::Fail(s@),
        }
    }
}

/// The step after `picked` of the commits were picked.
pub open spec fn next_pick(commits: Seq<Seq<char>>, picked: nat) -> PickStepView {
    if picked < commits.len() {
        PickStepView::Pick(commits[picked as int])
    } else {
        PickStepView::ReadHead
    }
}

/// The step after the attempt to pick the commit at a position.
pub open spec fn step_after_pick(
    commits: Seq<Seq<char>>,
    at: nat,
    success: bool,
    stderr: Seq<char>,
) -> PickStepView {
    if success {
        next_pick(commits, at + 1)
    } else {
        PickStepView::Abort(
            "cherry-pick conflict on "@ + shortened(commits[at as int]) + ": "@ + stderr,
        )
    }
}

/// The arguments with which git adds the worktree that commits are picked in: at the commit that
/// main points to, but detached from main, which stays where it is until it is moved.
pub fn worktree_args(worktree: &str) -> (r: Vec<String>)
    ensures
        texts(r@) == seq!["worktree"@, "add"@, "--detach"@, worktree@, "main"@],
{
    let mut args: Vec<String> = Vec::new();
    args.push(String::from_str("worktree"));
    args.push(String::from_str("add"));
    args.push(String::from_str("--detach"));
    args.push(String::from_str(worktree));
    args.push(String::from_str("main"));
    proof {
        assert(texts(args@) =~= seq!["worktree"@, "add"@, "--detach"@, worktree@, "main"@]);
    }
    args
}

/// Commits that are picked onto main, oldest first.
#[derive(Debug)]
pub struct CherryPick {
    commits: Vec<String>,
    picked: usize,
}

impl CherryPick {
    /// The commits that are picked.
    pub closed spec fn commits(&self) -> Seq<Seq<char>> {
        texts(self.commits@)
    }

    /// How many of them were picked.
    pub closed spec fn picked(&self) -> nat {
        self.picked as nat
    }

    pub fn new(commits: Vec<String>) -> (r: Self)
        ensures
            r.commits() == texts(commits@),
            r.picked() == 0,
    {
        CherryPick { commits, picked: 0 }
    }

    fn next(&self) -> (r: PickStep)
        ensures
            r@ == next_pick(self.commits(), self.picked()),
    {
        if self.picked < self.commits.len() {
            PickStep::Pick(self.commits[self.picked].clone())
        } else {
            PickStep::ReadHead
        }
    }

    /// Goes on once the worktree was added at the current main, or could not be.
    pub fn after_worktree(&self, success: bool, stderr: &str) -> (r: PickStep)
        ensures
            r@ == (if success {
                next_pick(self.commits(), self.picked())
            } else {
                PickStepView::Fail("git worktree add failed: "@ + stderr@)
            }),
    {
        if !success {
            let mut msg = String::from_str("git worktree add failed: ");
            msg.append(stderr);
            return PickStep::Fail(msg);
        }
        self.next()
    }

    /// Goes on once a commit was picked, or could not be.
    pub fn after_pick(&mut self, success: bool, stderr: &str) -> (r: PickStep)
        requires
            old(self).picked() < old(self).commits().len(),
            can_shorten(old(self).commits()[old(self).picked() as int]),
        ensures
            r@ == step_after_pick(old(self).commits(), old(self).picked(), success, stderr@),
            final(self).commits() == old(self).commits(),
            final(self).picked() == (if success {
                old(self).picked() + 1
            } else {
                old(self).picked()
            }),
    {
        let total: usize = self.commits.len();
        if success && self.picked < total {
            self.picked = self.picked + 1;
            return self.next();
        }
        let mut msg = String::from_str("cherry-pick conflict on ");
        msg.append(shorten(self.commits[self.picked].as_str()));
        msg.append(": ");
        msg.append(stderr);
        PickStep::Abort(msg)
    }

    /// Goes on with the new head that git printed.
    pub fn after_head(&self, stdout: &str) -> (r: PickStep)
        ensures
            r@ == PickStepView::UpdateMain(trim(stdout@)),
    {
        let chars = chars_of(stdout);
        PickStep::UpdateMain(string_of(trim_chars(chars.as_slice())))
    }

    /// Goes on once main points to the new head, or could not be moved.
    pub fn after_update(&self, success: bool, stderr: &str, head: String) -> (r: PickStep)
        ensures
            r@ == (if success {
                PickStepView::Done(head@)
            } else {
                PickStepView::Fail("git update-ref failed: "@ + stderr@)
            }),
    {
        if success {
            PickStep::Done(head)
        } else {
            let mut msg = String::from_str("git update-ref failed: ");
            msg.append(stderr);
            PickStep::Fail(msg)
        }
    }
}

/// The step that is reached from the commit at a position on, with the outcomes of the attempts to
/// pick it and those behind it.
pub open spec fn run_picks(
    commits: Seq<Seq<char>>,
    at: nat,
    outcomes: spec_fn(int) -> bool,
    stderr: Seq<char>,
) -> PickStepView
    decreases commits.len() - at,
{
    match next_pick(commits, at) {
        PickStepView::Pick(_) => match step_after_pick(commits, at, outcomes(at as int), stderr) {
            PickStepView::Abort(msg) => PickStepView::Abort(msg),
            _ => if at < commits.len() {
                run_picks(commits, at + 1, outcomes, stderr)
            } else {
                PickStepView::ReadHead
            },
        },
        s => s,
    }
}

/// Main is moved only where every commit could be picked: the new head is read if all attempts
/// succeed, and the first that fails breaks the whole off.
pub proof fn law_all_commits_or_none(
    commits: Seq<Seq<char>>,
    at: nat,
    outcomes: spec_fn(int) -> bool,
    stderr: Seq<char>,
)
    requires
        at <= commits.len(),
    ensures
        (forall|i: int| at <= i < commits.len() ==> #[trigger] outcomes(i)) ==> run_picks(
            commits,
            at,
            outcomes,
            stderr,
        ) == PickStepView::ReadHead,
        (exists|i: int| at <= i < commits.len() && !#[trigger] outcomes(i)) ==> run_picks(
            commits,
            at,
            outcomes,
            stderr,
        ) is Abort,
    decreases commits.len() - at,
{
    if at < commits.len() {
        law_all_commits_or_none(commits, at + 1, outcomes, stderr);
        if exists|i: int| at <= i < commits.len() && !#[trigger] outcomes(i) {
            let i = choose|i: int| at <= i < commits.len() && !#[trigger] outcomes(i);
            if outcomes(at as int) {
                assert(at + 1 <= i);
            }
        }
    }
}

/// The commits to pick are the history turned round: none is left out, none is picked twice, and of
/// two commits the older one, which stands later in the history, is picked earlier. The commits of a
/// longer history are those of its older part, and then those of its newer part.
pub proof fn law_older_commits_are_picked_first(newer: Seq<LogEntry>, older: Seq<LogEntry>)
    ensures
        oldest_first(newer).reverse() == newer.map_values(|e: LogEntry| e.commit_id@),
        oldest_first(newer + older) == oldest_first(older) + oldest_first(newer),
        forall|i: int, j: int|
            0 <= i < j < newer.len() ==> oldest_first(newer)[newer.len() - 1 - j] == (
            #[trigger] newer[j]).commit_id@ && oldest_first(newer)[newer.len() - 1 - i] == (
            #[trigger] newer[i]).commit_id@,
{
    assert(oldest_first(newer).reverse() =~= newer.map_values(|e: LogEntry| e.commit_id@));
    assert(oldest_first(newer + older) =~= oldest_first(older) + oldest_first(newer));
}

/// The one who decides may decide: the owner of the repository accepts or rejects a proposed
/// changeset, its author withdraws it, and nothing of it changes but its status, which says what was
/// decided. Anyone else is refused.
pub proof fn law_deciders_decide(c: ChangesetRecord, agent_id: Seq<char>)
    requires
        c.status == "proposed"@,
    ensures
        decide_record(Decision::Accept, c, c.owner_id) == Ok::<ChangesetRecord, Status>(
            ChangesetRecord { status: "accepted"@, ..c },
        ),
        decide_record(Decision::Reject, c, c.owner_id) == Ok::<ChangesetRecord, Status>(
            ChangesetRecord { status: "rejected"@, ..c },
        ),
        decide_record(Decision::Withdraw, c, c.author_id) == Ok::<ChangesetRecord, Status>(
            ChangesetRecord { status: "withdrawn"@, ..c },
        ),
        agent_id != c.owner_id ==> decide_record(Decision::Accept, c, agent_id) == Err::<
            ChangesetRecord,
            Status,
        >(Status::Forbidden) && decide_record(Decision::Reject, c, agent_id) == Err::<
            ChangesetRecord,
            Status,
        >(Status::Forbidden),
        agent_id != c.author_id ==> decide_record(Decision::Withdraw, c, agent_id) == Err::<
            ChangesetRecord,
            Status,
        >(Status::Forbidden),
{
}

/// Changesets can be listed by every status that one can have, and by no other.
pub proof fn law_every_status_can_be_listed(status: Seq<char>, d: Decision)
    ensures
        changeset_statuses().contains("proposed"@),
        changeset_statuses().contains(decided_status(d)),
        changeset_statuses().contains(status) ==> status == "proposed"@ || exists|e: Decision|
            #[trigger] decided_status(e) == status,
{
    let all = changeset_statuses();
    assert(all[0] == "proposed"@ && all[1] == "accepted"@ && all[2] == "rejected"@ && all[3]
        == "withdrawn"@);
    assert(decided_status(Decision::Accept) == "accepted"@);
    assert(decided_status(Decision::Reject) == "rejected"@);
    assert(decided_status(Decision::Withdraw) == "withdrawn"@);
}

/// The ref of a changeset is one that names it, so that a push to it is a push to that changeset.
pub proof fn law_changeset_ref_names_it(id: Seq<char>)
    ensures
        crate::app::changeset_of_ref(changeset_ref(id)) == Some(id),
{
    crate::app::law_changeset_refs_name_changesets(changeset_ref(id), id);
}

/// The commits that are picked from a position on, where every attempt succeeds.
pub open spec fn picks_from(commits: Seq<Seq<char>>, step: PickStepView, at: nat) -> Seq<Seq<char>>
    decreases commits.len() - at,
{
    match step {
        PickStepView::Pick(c) => if at < commits.len() {
            seq![c] + picks_from(commits, step_after_pick(commits, at, true, seq![]), at + 1)
        } else {
            seq![c]
        },
        _ => seq![],
    }
}

/// Every commit is picked once, in the order given, before the new head is read; and an attempt that
/// fails picks nothing more.
pub proof fn law_commits_are_picked_in_order(commits: Seq<Seq<char>>, at: nat, stderr: Seq<char>)
    requires
        at <= commits.len(),
    ensures
        picks_from(commits, next_pick(commits, at), at) == commits.skip(at as int),
        step_after_pick(commits, at, false, stderr) is Abort,
        picks_from(commits, step_after_pick(commits, at, false, stderr), at) == Seq::<
            Seq<char>,
        >::empty(),
    decreases commits.len() - at,
{
    if at < commits.len() {
        law_commits_are_picked_in_order(commits, at + 1, stderr);
        assert(seq![commits[at as int]] + commits.skip(at as int + 1) =~= commits.skip(at as int));
    } else {
        assert(commits.skip(at as int) =~= seq![]);
    }
}

proof fn lemma_commit_lines(a: Seq<LogEntry>, b: Seq<LogEntry>)
    ensures
        commit_lines(a + b) == commit_lines(a) + commit_lines(b),
    decreases b.len(),
{
    if b.len() == 0 {
        assert(a + b =~= a);
        assert(commit_lines(a) + commit_lines(b) =~= commit_lines(a));
    } else {
        lemma_commit_lines(a, b.drop_last());
        assert((a + b).drop_last() =~= a + b.drop_last());
        assert(commit_lines(a + b) =~= commit_lines(a) + commit_lines(b));
    }
}

/// All commits of a changeset are shown, in their order, each by its name and its message, and their
/// number before them.
pub proof fn law_all_commits_are_shown(a: Seq<LogEntry>, b: Seq<LogEntry>, one: LogEntry)
    ensures
        commit_lines(a + b) == commit_lines(a) + commit_lines(b),
        commit_lines(seq![one]) == "    "@ + shortened(one.commit_id@) + " "@ + one.message@ + "\n"@,
        a.len() > 0 ==> crate::text::has_prefix(
            commits_text(a),
            "  "@ + dec(a.len()) + " commit"@,
        ) && crate::text::has_suffix(commits_text(a), commit_lines(a)),
{
    lemma_commit_lines(a, b);
    assert(seq![one].drop_last() =~= seq![]);
    reveal_with_fuel(commit_lines, 2);
    assert(commit_lines(seq![one]) =~= "    "@ + shortened(one.commit_id@) + " "@ + one.message@
        + "\n"@);
    if a.len() > 0 {
        let t = commits_text(a);
        let start = "  "@ + dec(a.len()) + " commit"@;
        assert(t.take(start.len() as int) =~= start);
        assert(t.skip(t.len() - commit_lines(a).len()) =~= commit_lines(a));
    }
}

/// What a value says in contracts is what its fields say, each in its own place.
pub proof fn law_views_show_every_field(changeset_response: ChangesetResponse, pick_step: PickStep)
    ensures
        changeset_response@.id == changeset_response.id@,
        changeset_response@.repo_owner == changeset_response.repo_owner@,
        changeset_response@.repo_name == changeset_response.repo_name@,
        changeset_response@.author_name == changeset_response.author_name@,
        changeset_response@.description == changeset_response.description@,
        changeset_response@.ref_name == changeset_response.ref_name@,
        changeset_response@.base_commit == changeset_response.base_commit@,
        changeset_response@.status == changeset_response.status@,
        changeset_response@.push_url == changeset_response.push_url@,
        changeset_response@.created_at == changeset_response.created_at@,
        pick_step@ == (match pick_step {
            PickStep::Pick(s) => PickStepView::Pick(s@),
            PickStep::Abort(s) => PickStepView::Abort(s@),
            PickStep::ReadHead => PickStepView::ReadHead,
            PickStep::UpdateMain(s) => PickStepView::UpdateMain(s@),
            PickStep::Done(s) => PickStepView::Done(s@),
            PickStep::Fail(s) => PickStepView::Fail(s@),
        }),
{
}

/// A changeset is shown in four lines: its status, what it is and who wrote it; its ref; the commit
/// that it is based on; and the command that pushes to it.
pub proof fn law_changeset_is_shown_in_four_lines(c: ChangesetResponse)
    ensures
        split(c.text(), '\n') == split("["@ + c.status@ + "] "@ + c.description@ + " by "@ + c.author_name@, '\n')
            + split("  ref: "@ + c.ref_name@, '\n')
            + split("  base: "@ + shortened(c.base_commit@), '\n')
            + split("  push: git push "@ + c.push_url@ + " "@ + c.ref_name@, '\n')
            + seq![Seq::<char>::empty()],
{
    reveal_strlit("\n  ref: ");
    reveal_strlit("  ref: ");
    reveal_strlit("\n  base: ");
    reveal_strlit("  base: ");
    reveal_strlit("\n  push: git push ");
    reveal_strlit("  push: git push ");
    reveal_strlit("\n");
    let line0 = "["@ + c.status@ + "] "@ + c.description@ + " by "@ + c.author_name@;
    let line1 = "  ref: "@ + c.ref_name@;
    let line2 = "  base: "@ + shortened(c.base_commit@);
    let line3 = "  push: git push "@ + c.push_url@ + " "@ + c.ref_name@;
    let end = Seq::<char>::empty();
    let rest3 = line3 + seq!['\n'] + end;
    let rest2 = line2 + seq!['\n'] + rest3;
    let rest1 = line1 + seq!['\n'] + rest2;
    assert(c.text() =~= line0 + seq!['\n'] + rest1);
    lemma_ended_line(line3, end);
    lemma_ended_line(line2, rest3);
    lemma_ended_line(line1, rest2);
    lemma_ended_line(line0, rest1);
}

/// A changeset that is shown in detail is shown as in a list, followed by its commits; a list shows all
/// of its changesets in their order, and says so where there are none.
pub proof fn law_details_follow_the_changeset(
    detail: ChangesetDetail,
    a: ChangesetList,
    b: ChangesetList,
    both: ChangesetList,
    accepted: AcceptResponse,
)
    requires
        both.0@ == a.0@ + b.0@,
    ensures
        crate::text::has_prefix(detail.text(), detail.changeset.text()),
        crate::text::has_suffix(detail.text(), commits_text(detail.commits@)),
        detail.text().len() == detail.changeset.text().len() + commits_text(detail.commits@).len(),
        a.0@.len() > 0 && b.0@.len() > 0 ==> both.text() == a.text() + b.text(),
        a.0@.len() == 1 ==> a.text() == a.0@[0].text(),
        a.0@.len() == 0 ==> a.text() == "(no changesets)\n"@,
        crate::text::has_prefix(accepted.text(), "accepted, new head: "@ + accepted.new_head@),
{
    crate::text::law_parts_of_a_text(
        detail.changeset.text(),
        commits_text(detail.commits@),
        seq![],
        seq![],
    );
    crate::format::law_lists_show_every_item(a.0@, b.0@, a.0@[0], "(no changesets)\n"@);
    assert(a.0@.len() == 1 ==> a.0@ =~= seq![a.0@[0]]);
    let start = "accepted, new head: "@ + accepted.new_head@;
    assert(accepted.text().take(start.len() as int) =~= start);
}

/// There is a text for every answer; a list has one where each of its items has.
pub proof fn law_answers_can_be_shown(
    changeset_list: ChangesetList,
    accept_response: AcceptResponse,
)
    ensures
        (forall|i: int|
            0 <= i < changeset_list.0@.len() ==> (#[trigger] changeset_list.0@[i]).renders()) ==> changeset_list.renders(),
        accept_response.renders(),
{
}

/// A repository is pushed to below `/git`, by its owner and its name; a commit that cannot be picked
/// is told by its shortened name, with what git said.
pub proof fn law_push_goes_to_the_repository(
    owner: Seq<char>,
    repo: Seq<char>,
    commits: Seq<Seq<char>>,
    at: nat,
    stderr: Seq<char>,
)
    requires
        at < commits.len(),
    ensures
        push_url_of(owner, repo) + ".git"@ == "/git/"@ + crate::repo::bare_repo_path_of(owner, repo),
        step_after_pick(commits, at, false, stderr) == PickStepView::Abort(
            "cherry-pick conflict on "@ + (shortened(commits[at as int]) + ": "@ + stderr),
        ),
{
    let said = "cherry-pick conflict on "@ + (shortened(commits[at as int]) + ": "@ + stderr);
    assert("cherry-pick conflict on "@ + shortened(commits[at as int]) + ": "@ + stderr =~= said);
    assert(push_url_of(owner, repo) + ".git"@ =~= "/git/"@ + crate::repo::bare_repo_path_of(
        owner,
        repo,
    ));
}

/// A changeset without commits says so, and one with commits says how many before it shows them.
pub proof fn law_number_of_commits_is_told(commits: Seq<LogEntry>)
    ensures
        commits.len() == 0 ==> commits_text(commits) == "  (no commits pushed yet)\n"@,
        commits.len() == 1 ==> crate::text::has_prefix(
            commits_text(commits),
            "  "@ + dec(1) + " commit:\n"@,
        ),
        commits.len() > 1 ==> crate::text::has_prefix(
            commits_text(commits),
            "  "@ + dec(commits.len()) + " commits:\n"@,
        ),
{
    reveal_strlit("");
    reveal_strlit("s");
    reveal_strlit(" commit");
    reveal_strlit(":\n");
    reveal_strlit(" commit:\n");
    reveal_strlit(" commits:\n");
    let t = commits_text(commits);
    let one = "  "@ + dec(1) + " commit:\n"@;
    let many = "  "@ + dec(commits.len()) + " commits:\n"@;
    if commits.len() == 1 {
        assert(t.take(one.len() as int) =~= one);
    }
    if commits.len() > 1 {
        assert(t.take(many.len() as int) =~= many);
    }
}

/// That a changeset was accepted is shown in a line, with the commit that is the head now.
pub proof fn law_acceptance_is_shown_in_a_line(a: AcceptResponse)
    ensures
        split(a.text(), '\n') == split("accepted, new head: "@ + a.new_head@, '\n') + seq![
            Seq::<char>::empty(),
        ],
{
    reveal_strlit("\n");
    let line = "accepted, new head: "@ + a.new_head@;
    assert(a.text() =~= line + seq!['\n'] + Seq::<char>::empty());
    lemma_ended_line(line, Seq::<char>::empty());
}

} // verus!
