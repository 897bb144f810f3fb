//! What is asked of the hosting service's API, and where each fetched
//! record is written.
use vstd::prelude::*;

use crate::github::{slug, GitHubClones, GitHubRepoId, GitHubTraffic};
use crate::iso8601date::{date_key, ISO8601Date};

verus! {

/// The period that each fetched record covers.
#[derive(Clone, Copy, Debug, PartialEq, Eq, Structural)]
pub enum Frequency {
    Day,
    Week,
}

pub open spec fn frequency_name(f: Frequency) -> Seq<char> {
    match f {
        Frequency::Day => "day"@,
        Frequency::Week => "week"@,
    }
}

impl Frequency {
    /// `day` or `week`.
    pub fn as_str(&self) -> (r: &'static str)
        ensures
            r@ == frequency_name(*self),
    {
        match self {
            Frequency::Day => "day",
            Frequency::Week => "week",
        }
    }
}

/// Page views of a repository, fetched at one frequency.
#[derive(Clone, Debug)]
pub struct GitHubTrafficContainer {
    pub repo: GitHubRepoId,
    pub frequency: Frequency,
    pub payload: GitHubTraffic,
}

/// Clones of a repository, fetched at one frequency.
#[derive(Clone, Debug)]
pub struct GitHubClonesContainer {
    pub repo: GitHubRepoId,
    pub frequency: Frequency,
    pub payload: GitHubClones,
}

/// `repos/<owner>/<repo>/<tail>`: the API path of a resource of a repository.
pub open spec fn api_path(repo: GitHubRepoId, tail: Seq<char>) -> Seq<char> {
    "repos/"@ + slug(repo.owner@, repo.repo@) + seq!['/'] + tail
}

/// `<out_dir>/<owner>/<repo>/<category>/<frequency>/<date>.json`.
pub open spec fn stat_path(
    out_dir: Seq<char>,
    repo: GitHubRepoId,
    category: Seq<char>,
    frequency: Frequency,
    date: Seq<char>,
) -> Seq<char> {
    out_dir + seq!['/'] + slug(repo.owner@, repo.repo@) + seq!['/'] + category + seq!['/']
        + frequency_name(frequency) + seq!['/'] + date + ".json"@
}

/// `<out_dir>/<owner>/<repo>/repo/<date>.json`.
pub open spec fn repo_path(out_dir: Seq<char>, repo: GitHubRepoId, date: Seq<char>) -> Seq<char> {
    out_dir + seq!['/'] + slug(repo.owner@, repo.repo@) + seq!['/'] + "repo"@ + seq!['/'] + date
        + ".json"@
}

fn append_slash(out: &mut String)
    ensures
        final(out)@ == old(out)@.push('/'),
{
    proof {
        reveal_strlit("/");
    }
    out.append("/");
}

impl GitHubRepoId {
    /// The API path of the resource `tail` of this repository.
    pub fn api_path(&self, tail: &str) -> (r: String)
        ensures
            r@ == api_path(*self, tail@),
    {
        let mut out = String::from_str("repos/");
        let s = self.as_slug();
        out.append(s.as_str());
        append_slash(&mut out);
        out.append(tail);
        out
    }
}

/// `repos/<owner>/<repo>`: the API path of a repository's own description.
pub open spec fn repo_api_path_of(repo: GitHubRepoId) -> Seq<char> {
    "repos/"@ + slug(repo.owner@, repo.repo@)
}

/// The API path of the description of `repo`.
pub fn repo_api_path(repo: &GitHubRepoId) -> (r: String)
    ensures
        r@ == repo_api_path_of(*repo),
{
    let mut out = String::from_str("repos/");
    let s = repo.as_slug();
    out.append(s.as_str());
    out
}

/// The API path of the page views of `repo` per `frequency`.
pub fn traffic_api_path(repo: &GitHubRepoId, frequency: Frequency) -> (r: String)
    ensures
        r@ == api_path(*repo, "traffic/views?per="@ + frequency_name(frequency)),
{
    let mut tail = String::from_str("traffic/views?per=");
    tail.append(frequency.as_str());
    repo.api_path(tail.as_str())
}

/// The API path of the clones of `repo` per `frequency`.
pub fn clones_api_path(repo: &GitHubRepoId, frequency: Frequency) -> (r: String)
    ensures
        r@ == api_path(*repo, "traffic/clones?per="@ + frequency_name(frequency)),
{
    let mut tail = String::from_str("traffic/clones?per=");
    tail.append(frequency.as_str());
    repo.api_path(tail.as_str())
}

/// The file that the record of `timestamp` is written to.
pub fn stat_file_path(
    out_dir: &str,
    repo: &GitHubRepoId,
    category: &str,
    frequency: Frequency,
    timestamp: &ISO8601Date,
) -> (r: String)
    ensures
        r@ == stat_path(out_dir@, *repo, category@, frequency, date_key(timestamp@)),
{
    let mut out = String::from_str(out_dir);
    append_slash(&mut out);
    let s = repo.as_slug();
    out.append(s.as_str());
    append_slash(&mut out);
    out.append(category);
    append_slash(&mut out);
    out.append(frequency.as_str());
    append_slash(&mut out);
    let d = timestamp.as_date_str();
    out.append(d.as_str());
    out.append(".json");
    out
}

/// The file that the description of `repo` fetched on `today` is written to.
pub fn repo_file_path(out_dir: &str, repo: &GitHubRepoId, today: &ISO8601Date) -> (r: String)
    ensures
        r@ == repo_path(out_dir@, *repo, date_key(today@)),
{
    let mut out = String::from_str(out_dir);
    append_slash(&mut out);
    let s = repo.as_slug();
    out.append(s.as_str());
    append_slash(&mut out);
    out.append("repo");
    append_slash(&mut out);
    let d = today.as_date_str();
    out.append(d.as_str());
    out.append(".json");
    out
}

impl GitHubTrafficContainer {
    /// The file of each page-view record, in the order of the records.
    pub fn file_paths(&self, out_dir: &str) -> (r: Vec<String>)
        ensures
            r@.len() == self.payload.views@.len(),
            forall|i: int|
                0 <= i < r@.len() ==> (#[trigger] r@[i])@ == stat_path(
                    out_dir@,
                    self.repo,
                    "traffic"@,
                    self.frequency,
                    date_key(self.payload.views@[i].timestamp@),
                ),
    {
        let mut paths: Vec<String> = Vec::new();
        let mut i: usize = 0;
        while i < self.payload.views.len()
            invariant
                i <= self.payload.views@.len(),
                paths@.len() == i,
                forall|k: int|
                    0 <= k < i ==> (#[trigger] paths@[k])@ == stat_path(
                        out_dir@,
                        self.repo,
                        "traffic"@,
                        self.frequency,
                        date_key(self.payload.views@[k].timestamp@),
                    ),
            decreases self.payload.views@.len() - i,
        {
            let p = stat_file_path(
                out_dir,
                &self.repo,
                "traffic",
                self.frequency,
                &self.payload.views[i].timestamp,
            );
            paths.push(p);
            i = i + 1;
        }
        paths
    }
}

impl GitHubClonesContainer {
    /// The file of each clone record, in the order of the records.
    pub fn file_paths(&self, out_dir: &str) -> (r: Vec<String>)
        ensures
            r@.len() == self.payload.clones@.len(),
            forall|i: int|
                0 <= i < r@.len() ==> (#[trigger] r@[i])@ == stat_path(
                    out_dir@,
                    self.repo,
                    "clones"@,
                    self.frequency,
                    date_key(self.payload.clones@[i].timestamp@),
                ),
    {
        let mut paths: Vec<String> = Vec::new();
        let mut i: usize = 0;
        while i < self.payload.clones.len()
            invariant
                i <= self.payload.clones@.len(),
                paths@.len() == i,
                forall|k: int|
                    0 <= k < i ==> (#[trigger] paths@[k])@ == stat_path(
                        out_dir@,
                        self.repo,
                        "clones"@,
                        self.frequency,
                        date_key(self.payload.clones@[k].timestamp@),
                    ),
            decreases self.payload.clones@.len() - i,
        {
            let p = stat_file_path(
                out_dir,
                &self.repo,
                "clones",
                self.frequency,
                &self.payload.clones[i].timestamp,
            );
            paths.push(p);
            i = i + 1;
        }
        paths
    }
}

} // verus!
