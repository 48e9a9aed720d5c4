//! Git-side values: commit identifiers and the git client's configuration.
use vstd::prelude::*;

use crate::text::{lines_of, strip_prefix, strip_prefix_str, text_lines, trim, trim_str, views};

verus! {

/// The identifier of an immutable git commit (its hash, as text).
#[derive(Clone, Debug)]
pub struct CommitId(pub String);

/// The hash text of a commit id.
pub open spec fn hash_of(c: CommitId) -> Seq<char> {
    c.0@
}

impl PartialEq for CommitId {
    fn eq(&self, o: &CommitId) -> (r: bool) {
        self.0 == o.0
    }
}

impl vstd::std_specs::cmp::PartialEqSpecImpl for CommitId {
    open spec fn obeys_eq_spec() -> bool {
        true
    }

    open spec fn eq_spec(&self, o: &CommitId) -> bool {
        self.0@ == o.0@
    }
}

impl Eq for CommitId {}

impl CommitId {
    /// The hash text.
    pub fn as_str(&self) -> (r: &str)
        ensures
            r@ == self.0@,
    {
        self.0.as_str()
    }
}

/// Runs git in one working copy (the process calls live with the caller).
#[derive(Clone, Debug)]
pub struct GitClient {
    pub path: String,
}

impl GitClient {
    pub fn new(path: String) -> (r: GitClient)
        ensures
            r.path@ == path@,
    {
        GitClient { path }
    }
}

/// The lines that start with `ref_prefix`, with it removed, in order.
pub open spec fn stripped_lines(ls: Seq<Seq<char>>, ref_prefix: Seq<char>) -> Seq<Seq<char>>
    decreases ls.len(),
{
    if ls.len() == 0 {
        Seq::empty()
    } else {
        let rest = stripped_lines(ls.drop_last(), ref_prefix);
        match strip_prefix(ls.last(), ref_prefix) {
            Some(b) => rest.push(b),
            None => rest,
        }
    }
}

/// The remote branch names in a tool's ref listing: the output is trimmed,
/// and of each line that starts with `ref_prefix` (such as `origin/`) the
/// rest is kept; other lines are skipped.
pub fn remote_branch_names(output: &str, ref_prefix: &str) -> (r: Vec<String>)
    ensures
        views(r@) == stripped_lines(text_lines(trim(output@)), ref_prefix@),
{
    let trimmed = trim_str(output);
    let lines = lines_of(trimmed.as_str());
    let ghost ls = text_lines(trim(output@));
    let mut r: Vec<String> = Vec::new();
    let mut k: usize = 0;
    assert(ls.take(0) =~= Seq::<Seq<char>>::empty());
    assert(views(r@) =~= Seq::<Seq<char>>::empty());
    while k < lines.len()
        invariant
            views(lines@) == ls,
            k <= lines.len(),
            views(r@) == stripped_lines(ls.take(k as int), ref_prefix@),
        decreases lines.len() - k,
    {
        let ghost t = ls.take(k as int + 1);
        assert(t.drop_last() =~= ls.take(k as int));
        assert(t.last() == lines@[k as int]@);
        match strip_prefix_str(lines[k].as_str(), ref_prefix) {
            Some(b) => {
                let ghost before = views(r@);
                r.push(b);
                assert(views(r@) =~= before.push(r@[r.len() - 1]@));
            },
            None => {},
        }
        k = k + 1;
    }
    assert(ls.take(lines.len() as int) =~= ls);
    r
}

} // verus!
