//! Published versions.

use vstd::prelude::*;
use vstd::string::*;
use crate::format::{
    all_render, can_shorten, list_text, render_list, shorten, shortened, TextFormat,
};
use crate::status::Status;
use crate::text::{lemma_ended_line, same_text, split};

verus! {

pub struct VersionEntry {
    pub version: String,
    pub commit_sha: String,
    pub yanked: bool,
    pub created_at: String,
}

impl TextFormat for VersionEntry {
    open spec fn text(&self) -> Seq<char> {
        self.version@ + "  "@ + shortened(self.commit_sha@) + "  "@ + self.created_at@ + (if self.yanked {
            " [yanked]"@
        } else {
            ""@
        }) + "\n"@
    }

    open spec fn renders(&self) -> bool {
        can_shorten(self.commit_sha@)
    }

    fn to_text(&self) -> (r: String) {
        let mut s = String::from_str(self.version.as_str());
        s.append("  ");
        s.append(shorten(self.commit_sha.as_str()));
        s.append("  ");
        s.append(self.created_at.as_str());
        s.append(if self.yanked {
                " [yanked]"
            } else {
                ""
            });
        s.append("\n");
        s
    }
}

pub struct VersionList(pub Vec<VersionEntry>);

impl TextFormat for VersionList {
    open spec fn text(&self) -> Seq<char> {
        list_text(self.0@, "(no versions)\n"@)
    }

    open spec fn renders(&self) -> bool {
        all_render(self.0@)
    }

    fn to_text(&self) -> (r: String) {
        render_list(&self.0, "(no versions)\n")
    }
}

/// A repository and the agent that owns it.
#[derive(Debug)]
pub struct OwnedRepo {
    pub repo_id: String,
    pub owner_id: String,
}

/// The repository whose version an agent yanks, which has to exist and to be its own.
pub fn yank_version(repo: Option<OwnedRepo>, agent_id: &str) -> (r: Result<String, Status>)
    ensures
        match repo {
            None => r matches Err(e) && e == Status::NotFound,
            Some(o) => if o.owner_id@ == agent_id@ {
                r matches Ok(id) && id@ == o.repo_id@
            } else {
                r matches Err(e) && e == Status::Forbidden
            },
        },
{
    match repo {
        None => Err(Status::NotFound),
        Some(o) => {
            if same_text(o.owner_id.as_str(), agent_id) {
                Ok(o.repo_id)
            } else {
                Err(Status::Forbidden)
            }
        },
    }
}

/// The answer once the version was marked: a version that does not exist cannot be.
pub fn yanked(affected: u64) -> (r: Result<Status, Status>)
    ensures
        if affected == 0 {
            r matches Err(e) && e == Status::NotFound
        } else {
            r matches Ok(s) && s == Status::NoContent
        },
{
    if affected == 0 {
        Err(Status::NotFound)
    } else {
        Ok(Status::NoContent)
    }
}

/// A version is shown in a line: the version, its shortened commit, when it was published, and whether
/// it was yanked.
pub proof fn law_version_is_shown_in_a_line(v: VersionEntry)
    ensures
        split(v.text(), '\n') == split(v.version@ + "  "@ + shortened(v.commit_sha@) + "  "@ + v.created_at@ + (if v.yanked { " [yanked]"@ } else { seq![] }), '\n')
            + seq![Seq::<char>::empty()],
{
    reveal_strlit("");
    reveal_strlit("\n");
    let line0 = v.version@ + "  "@ + shortened(v.commit_sha@) + "  "@ + v.created_at@ + (if v.yanked { " [yanked]"@ } else { seq![] });
    let end = Seq::<char>::empty();
    assert(v.text() =~= line0 + seq!['\n'] + end);
    lemma_ended_line(line0, end);
}

/// A list of versions shows all of them in their order, and says so where there are none.
pub proof fn law_all_versions_are_listed(a: VersionList, b: VersionList, both: VersionList)
    requires
        both.0@ == a.0@ + b.0@,
    ensures
        a.0@.len() > 0 && b.0@.len() > 0 ==> both.text() == a.text() + b.text(),
        a.0@.len() == 1 ==> a.text() == a.0@[0].text(),
        a.0@.len() == 0 ==> a.text() == "(no versions)\n"@,
{
    crate::format::law_lists_show_every_item(a.0@, b.0@, a.0@[0], "(no versions)\n"@);
    assert(a.0@.len() == 1 ==> a.0@ =~= seq![a.0@[0]]);
}

/// There is a text for every answer; a list has one where each of its items has.
pub proof fn law_answers_can_be_shown(version_list: VersionList)
    ensures
        (forall|i: int|
            0 <= i < version_list.0@.len() ==> (#[trigger] version_list.0@[i]).renders()) ==> version_list.renders(),
{
}

} // verus!
