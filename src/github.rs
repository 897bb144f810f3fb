//! Repositories on the hosting service and the statistics fetched for them.
use vstd::prelude::*;

use crate::iso8601date::ISO8601Date;
use crate::text::find_char;

verus! {

/// A repository, by owner and name.
#[derive(Clone, Debug)]
pub struct GitHubRepoId {
    pub owner: String,
    pub repo: String,
}

/// `owner/repo`.
pub open spec fn slug(owner: Seq<char>, repo: Seq<char>) -> Seq<char> {
    owner + seq!['/'] + repo
}

/// Owner and name of the repository that `s` names: the text before and
/// after its first `/`.
pub open spec fn repo_id_of(s: Seq<char>) -> Option<(Seq<char>, Seq<char>)> {
    match crate::text::find_from(s, '/', 0) {
        Some(k) => Some((s.take(k), s.skip(k + 1))),
        None => None,
    }
}

impl GitHubRepoId {
    /// The repository as `owner/repo`.
    pub fn as_slug(&self) -> (r: String)
        ensures
            r@ == slug(self.owner@, self.repo@),
    {
        let mut out = self.owner.clone();
        proof {
            reveal_strlit("/");
        }
        out.append("/");
        out.append(self.repo.as_str());
        out
    }

    /// Reads `owner/repo`, split at the first `/`; `None` where there is none.
    pub fn parse(s: &str) -> (r: Option<GitHubRepoId>)
        ensures
            match r {
                Some(id) => repo_id_of(s@) == Some((id.owner@, id.repo@)),
                None => repo_id_of(s@) is None,
            },
    {
        match find_char(s, '/') {
            Some(k) => {
                let n = s.unicode_len();
                let owner = s.substring_char(0, k);
                let repo = s.substring_char(k + 1, n);
                assert(owner@ =~= s@.take(k as int));
                assert(repo@ =~= s@.skip(k + 1));
                Some(GitHubRepoId { owner: String::from_str(owner), repo: String::from_str(repo) })
            },
            None => None,
        }
    }
}

/// The statistics of one day or one week.
#[derive(Clone, Debug)]
pub struct TrafficStat {
    pub timestamp: ISO8601Date,
    pub count: u64,
    pub uniques: u64,
}

/// Page views of a repository: totals and one entry per period.
#[derive(Clone, Debug)]
pub struct GitHubTraffic {
    pub count: u64,
    pub uniques: u64,
    pub views: Vec<TrafficStat>,
}

/// Clones of a repository: totals and one entry per period.
#[derive(Clone, Debug)]
pub struct GitHubClones {
    pub count: u64,
    pub uniques: u64,
    pub clones: Vec<TrafficStat>,
}

} // verus!
