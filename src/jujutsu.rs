//! Jujutsu-side values: changes, their messages, and the jj client's
//! configuration.
use vstd::prelude::*;

use crate::error::JrError;
use crate::git::CommitId;
use crate::text::{
    join_from, join_lines, lines_of, split_by, split_str, splitn, splitn_str, text_lines, trim,
    trim_str, views,
};

verus! {

/// A change's description split into its first line and the rest.
#[derive(Clone, Debug)]
pub struct JujutsuCommitMessage {
    pub title: Option<String>,
    pub body: Option<String>,
}

/// A change as the VCS shows it at one moment.
#[derive(Clone, Debug)]
pub struct JujutsuCommit {
    pub change_id: String,
    pub commit_id: CommitId,
    pub message: JujutsuCommitMessage,
    pub parent_change_ids: Vec<String>,
}

/// The message rebuilt from title and body: both, separated by a blank line;
/// else whichever is present; else empty.
pub open spec fn full_message_of(m: JujutsuCommitMessage) -> Seq<char> {
    match (m.title, m.body) {
        (Some(t), Some(b)) => t@ + "\n\n"@ + b@,
        (Some(t), None) => t@,
        (None, Some(b)) => b@,
        (None, None) => Seq::<char>::empty(),
    }
}

pub open spec fn opt_view(o: Option<String>) -> Option<Seq<char>> {
    match o {
        Some(s) => Some(s@),
        None => None,
    }
}

pub fn clone_opt(o: &Option<String>) -> (r: Option<String>)
    ensures
        opt_view(r) == opt_view(*o),
{
    match o {
        Some(s) => Some(s.clone()),
        None => None,
    }
}

impl JujutsuCommitMessage {
    /// A copy of the message.
    pub fn duplicate(&self) -> (r: JujutsuCommitMessage)
        ensures
            opt_view(r.title) == opt_view(self.title),
            opt_view(r.body) == opt_view(self.body),
            full_message_of(r) == full_message_of(*self),
    {
        JujutsuCommitMessage { title: clone_opt(&self.title), body: clone_opt(&self.body) }
    }
}

impl JujutsuCommit {
    /// Reconstruct the full commit message from title and body.
    pub fn full_message(&self) -> (r: String)
        ensures
            r@ == full_message_of(self.message),
    {
        match (&self.message.title, &self.message.body) {
            (Some(title), Some(body)) => title.clone().concat("\n\n").concat(body.as_str()),
            (Some(title), None) => title.clone(),
            (None, Some(body)) => body.clone(),
            (None, None) => String::new(),
        }
    }
}

/// Runs jj in one working copy (the process calls live with the caller).
#[derive(Clone, Debug)]
pub struct JujutsuClient {
    pub path: String,
}

impl JujutsuClient {
    pub fn new(path: String) -> (r: JujutsuClient)
        ensures
            r.path@ == path@,
    {
        JujutsuClient { path }
    }
}

/// The title a description yields: its first line trimmed, if that is not
/// empty.
pub open spec fn title_of(lines: Seq<Seq<char>>) -> Option<Seq<char>> {
    if lines.len() == 0 || trim(lines[0]).len() == 0 {
        None
    } else {
        Some(trim(lines[0]))
    }
}

/// The body a description yields: the lines after the first, joined and
/// trimmed, if that is not empty.
pub open spec fn body_of(lines: Seq<Seq<char>>) -> Option<Seq<char>> {
    if lines.len() <= 1 || trim(join_lines(lines.skip(1))).len() == 0 {
        None
    } else {
        Some(trim(join_lines(lines.skip(1))))
    }
}

/// The parent change ids of a comma-separated list (none when empty).
pub open spec fn parent_ids_of(p: Seq<char>) -> Seq<Seq<char>> {
    if p.len() == 0 {
        Seq::<Seq<char>>::empty()
    } else {
        split_by(p, ',')
    }
}

/// The fields of jj's `commit_id|change_id|description|parents` line.
pub open spec fn commit_fields(output: Seq<char>) -> Seq<Seq<char>> {
    splitn(trim(output), 4, '|')
}

fn non_empty(s: String) -> (r: Option<String>)
    ensures
        r is Some <==> s@.len() > 0,
        r is Some ==> r->0@ == s@,
{
    if s.as_str().is_empty() {
        None
    } else {
        Some(s)
    }
}

/// Reads one change from jj's `commit_id|change_id|description|parents`
/// output (trimmed first): the description's first line, trimmed, is the
/// title; the remaining lines, joined and trimmed, the body; the parents are
/// comma-separated. Fails unless there are exactly four fields.
pub fn parse_commit(output: &str) -> (r: Result<JujutsuCommit, JrError>)
    ensures
        r is Ok <==> commit_fields(output@).len() == 4,
        r is Err ==> r->Err_0 == (JrError::UnexpectedOutput { parts: commit_fields(output@).len() as usize }),
        r is Ok ==> {
            let f = commit_fields(output@);
            let c = r->Ok_0;
            &&& c.commit_id.0@ == f[0]
            &&& c.change_id@ == f[1]
            &&& opt_view(c.message.title) == title_of(text_lines(f[2]))
            &&& opt_view(c.message.body) == body_of(text_lines(f[2]))
            &&& views(c.parent_change_ids@) == parent_ids_of(f[3])
        },
{
    let trimmed = trim_str(output);
    let parts = splitn_str(trimmed.as_str(), 4, '|');
    if parts.len() != 4 {
        return Err(JrError::UnexpectedOutput { parts: parts.len() });
    }
    assert(parts@[0]@ == views(parts@)[0]);
    assert(parts@[1]@ == views(parts@)[1]);
    assert(parts@[2]@ == views(parts@)[2]);
    assert(parts@[3]@ == views(parts@)[3]);
    let parent_change_ids = if parts[3].as_str().is_empty() {
        let v: Vec<String> = Vec::new();
        assert(views(v@) =~= Seq::<Seq<char>>::empty());
        v
    } else {
        split_str(parts[3].as_str(), ',')
    };
    let lines = lines_of(parts[2].as_str());
    let title = if lines.len() == 0 {
        None
    } else {
        assert(lines@[0]@ == views(lines@)[0]);
        non_empty(trim_str(lines[0].as_str()))
    };
    let body = if lines.len() > 1 {
        let joined = join_from(&lines, 1);
        non_empty(trim_str(joined.as_str()))
    } else {
        None
    };
    Ok(JujutsuCommit {
        change_id: parts[1].clone(),
        commit_id: CommitId(parts[0].clone()),
        message: JujutsuCommitMessage { title, body },
        parent_change_ids,
    })
}

/// The `change_id|commit_id` pairs of jj's output lines; a line that is empty
/// or does not hold exactly two fields is skipped.
pub open spec fn id_pairs(ls: Seq<Seq<char>>) -> Seq<(Seq<char>, Seq<char>)>
    decreases ls.len(),
{
    if ls.len() == 0 {
        Seq::empty()
    } else {
        let rest = id_pairs(ls.drop_last());
        let ps = split_by(ls.last(), '|');
        if ls.last().len() > 0 && ps.len() == 2 {
            rest.push((ps[0], ps[1]))
        } else {
            rest
        }
    }
}

pub open spec fn pair_views(v: Seq<(String, String)>) -> Seq<(Seq<char>, Seq<char>)> {
    v.map_values(|p: (String, String)| (p.0@, p.1@))
}

pub open spec fn change_views(v: Seq<(String, CommitId)>) -> Seq<(Seq<char>, Seq<char>)> {
    v.map_values(|p: (String, CommitId)| (p.0@, p.1.0@))
}

/// The `(change_id, commit_id)` pairs that jj printed, one per line, in the
/// order printed.
pub fn parse_id_pairs(output: &str) -> (r: Vec<(String, String)>)
    ensures
        pair_views(r@) == id_pairs(text_lines(output@)),
{
    let lines = lines_of(output);
    let ghost ls = text_lines(output@);
    let mut r: Vec<(String, String)> = Vec::new();
    let mut k: usize = 0;
    assert(ls.take(0) =~= Seq::<Seq<char>>::empty());
    assert(pair_views(r@) =~= Seq::<(Seq<char>, Seq<char>)>::empty());
    while k < lines.len()
        invariant
            views(lines@) == ls,
            k <= lines.len(),
            pair_views(r@) == id_pairs(ls.take(k as int)),
        decreases lines.len() - k,
    {
        let ghost t = ls.take(k as int + 1);
        assert(t.drop_last() =~= ls.take(k as int));
        assert(t.last() == lines@[k as int]@);
        if !lines[k].as_str().is_empty() {
            let ps = split_str(lines[k].as_str(), '|');
            if ps.len() == 2 {
                assert(ps@[0]@ == views(ps@)[0]);
                assert(ps@[1]@ == views(ps@)[1]);
                let ghost before = pair_views(r@);
                r.push((ps[0].clone(), ps[1].clone()));
                assert(pair_views(r@) =~= before.push((ps@[0]@, ps@[1]@)));
            }
        }
        k = k + 1;
    }
    assert(ls.take(lines.len() as int) =~= ls);
    r
}

/// The changes of a stack as jj prints them oldest first
/// (`change_id|commit_id` lines), returned tip first.
pub fn parse_stack_changes(output: &str) -> (r: Vec<(String, CommitId)>)
    ensures
        change_views(r@) == id_pairs(text_lines(output@)).reverse(),
{
    let pairs = parse_id_pairs(output);
    let mut r: Vec<(String, CommitId)> = Vec::new();
    let mut k = pairs.len();
    while k > 0
        invariant
            k <= pairs.len(),
            r.len() == pairs.len() - k,
            forall|u: int| 0 <= u < r.len() ==> #[trigger] change_views(r@)[u] == pair_views(pairs@)[pairs.len() - 1 - u],
        decreases k,
    {
        k = k - 1;
        let (a, b) = (pairs[k].0.clone(), pairs[k].1.clone());
        let ghost before = r@;
        r.push((a, CommitId(b)));
        assert forall|u: int| 0 <= u < r.len() implies #[trigger] change_views(r@)[u] == pair_views(pairs@)[pairs.len() - 1 - u] by {
            if u < r.len() - 1 {
                assert(r@[u] == before[u]);
                assert(change_views(before)[u] == pair_views(pairs@)[pairs.len() - 1 - u]);
            }
        }
    }
    assert(change_views(r@) =~= pair_views(pairs@).reverse());
    r
}

} // verus!
