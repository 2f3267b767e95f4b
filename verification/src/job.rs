//! The configuration of one download job: its endpoints, the plan of one
//! fetch per matched entry, and the builder that assembles a job.

use vstd::prelude::*;
use vstd::string::*;
use crate::paths::{is_under, destination, base_name_of, base_name, destination_path, joined, join_path};
use crate::tree::RepositoryEntry;

verus! {

/// The URL the recursive tree listing of `{user}/{repo}` at `{branch}` is
/// fetched from.
pub open spec fn tree_url_of(user: Seq<char>, repo: Seq<char>, branch: Seq<char>) -> Seq<char> {
    "https://api.github.com/repos/"@ + user + "/"@ + repo + "/git/trees/"@ + branch
        + "?recursive=1"@
}

/// The URL the raw content of one file is fetched from.
pub open spec fn raw_url_of(
    user: Seq<char>,
    repo: Seq<char>,
    branch: Seq<char>,
    path: Seq<char>,
) -> Seq<char> {
    "https://raw.githubusercontent.com/"@ + user + "/"@ + repo + "/"@ + branch + "/"@ + path
}

/// Build the tree-listing URL of a job.
pub fn tree_url(user: &str, repo: &str, branch: &str) -> (r: String)
    ensures
        r@ == tree_url_of(user@, repo@, branch@),
{
    let mut out = String::from_str("https://api.github.com/repos/");
    out.append(user);
    out.append("/");
    out.append(repo);
    out.append("/git/trees/");
    out.append(branch);
    out.append("?recursive=1");
    proof {
        assert(out@ =~= tree_url_of(user@, repo@, branch@));
    }
    out
}

/// Build the raw-content URL of one matched entry.
pub fn raw_url(user: &str, repo: &str, branch: &str, path: &str) -> (r: String)
    ensures
        r@ == raw_url_of(user@, repo@, branch@, path@),
{
    let mut out = String::from_str("https://raw.githubusercontent.com/");
    out.append(user);
    out.append("/");
    out.append(repo);
    out.append("/");
    out.append(branch);
    out.append("/");
    out.append(path);
    proof {
        assert(out@ =~= raw_url_of(user@, repo@, branch@, path@));
    }
    out
}

/// The browser-like identification both endpoints are called with, so the
/// requests are not rejected by anti-scraping heuristics.
pub fn user_agent() -> (r: &'static str)
    ensures
        r@
            == "Mozilla/5.0 (Windows NT 10.0; Win64; x64) AppleWebKit/537.36 (KHTML, like Gecko) Chrome/109.0.5410.0 Safari/537.36"@,
{
    "Mozilla/5.0 (Windows NT 10.0; Win64; x64) AppleWebKit/537.36 (KHTML, like Gecko) Chrome/109.0.5410.0 Safari/537.36"
}

/// One planned fetch: the raw-content URL to get and the local file the
/// bytes belong in.
#[derive(Debug)]
pub struct FetchTask {
    pub url: String,
    pub dest: String,
}

/// The resolved configuration of one download job, owned by the
/// orchestrator for the duration of one run.
#[derive(Debug)]
pub struct Downloader {
    pub user: String,
    pub repo: String,
    pub branch: String,
    pub remote_path: String,
    pub local_path: String,
}

/// The mathematical view of a job configuration.
#[verifier::ext_equal]
pub struct DownloaderView {
    pub user: Seq<char>,
    pub repo: Seq<char>,
    pub branch: Seq<char>,
    pub remote_path: Seq<char>,
    pub local_path: Seq<char>,
}

impl View for Downloader {
    type V = DownloaderView;

    open spec fn view(&self) -> DownloaderView {
        DownloaderView {
            user: self.user@,
            repo: self.repo@,
            branch: self.branch@,
            remote_path: self.remote_path@,
            local_path: self.local_path@,
        }
    }
}

impl Downloader {
    /// The URL this job's tree listing is fetched from.
    pub fn listing_url(&self) -> (r: String)
        ensures
            r@ == tree_url_of(self@.user, self@.repo, self@.branch),
    {
        tree_url(self.user.as_str(), self.repo.as_str(), self.branch.as_str())
    }

    /// Plan one fetch per matched entry: its raw-content URL, and the local
    /// destination obtained by stripping the remote path prefix from the
    /// entry's path and joining the remainder onto the local root.
    pub fn plan_fetches(&self, matched: &Vec<RepositoryEntry>) -> (r: Vec<FetchTask>)
        requires
            forall|i: int|
                0 <= i < matched@.len() ==> is_under(
                    self@.remote_path,
                    (#[trigger] matched@[i])@.path,
                ),
        ensures
            r@.len() == matched@.len(),
            forall|i: int|
                0 <= i < r@.len() ==> (#[trigger] r@[i]).url@ == raw_url_of(
                    self@.user,
                    self@.repo,
                    self@.branch,
                    matched@[i]@.path,
                ) && r@[i].dest@ == destination(
                    self@.remote_path,
                    matched@[i]@.path,
                    self@.local_path,
                ),
    {
        let mut out: Vec<FetchTask> = Vec::new();
        let mut i: usize = 0;
        while i < matched.len()
            invariant
                i <= matched@.len(),
                out@.len() == i,
                forall|i0: int|
                    0 <= i0 < matched@.len() ==> is_under(
                        self@.remote_path,
                        (#[trigger] matched@[i0])@.path,
                    ),
                forall|j: int|
                    0 <= j < i ==> (#[trigger] out@[j]).url@ == raw_url_of(
                        self@.user,
                        self@.repo,
                        self@.branch,
                        matched@[j]@.path,
                    ) && out@[j].dest@ == destination(
                        self@.remote_path,
                        matched@[j]@.path,
                        self@.local_path,
                    ),
            decreases matched@.len() - i,
        {
            let entry = &matched[i];
            let url = raw_url(
                self.user.as_str(),
                self.repo.as_str(),
                self.branch.as_str(),
                entry.path.as_str(),
            );
            let dest = destination_path(
                self.remote_path.as_str(),
                entry.path.as_str(),
                self.local_path.as_str(),
            );
            out.push(FetchTask { url, dest });
            i = i + 1;
        }
        out
    }
}

/// Assembles a job configuration from `(owner, repository, remote-path)`,
/// with an optional branch and an optional local destination root.
#[derive(Debug)]
pub struct DownloaderBuilder {
    pub user: String,
    pub repo: String,
    pub branch: Option<String>,
    pub remote_path: String,
    pub local_path: Option<String>,
}

/// The mathematical view of a builder.
#[verifier::ext_equal]
pub struct BuilderView {
    pub user: Seq<char>,
    pub repo: Seq<char>,
    pub branch: Option<Seq<char>>,
    pub remote_path: Seq<char>,
    pub local_path: Option<Seq<char>>,
}

impl View for DownloaderBuilder {
    type V = BuilderView;

    open spec fn view(&self) -> BuilderView {
        BuilderView {
            user: self.user@,
            repo: self.repo@,
            branch: match self.branch {
                Option::Some(b) => Option::Some(b@),
                Option::None => Option::None,
            },
            remote_path: self.remote_path@,
            local_path: match self.local_path {
                Option::Some(l) => Option::Some(l@),
                Option::None => Option::None,
            },
        }
    }
}

/// The configuration a finished builder yields: the branch defaults to
/// `main`, the local destination defaults to the base name of the remote
/// path.
pub open spec fn built(b: BuilderView) -> DownloaderView {
    DownloaderView {
        user: b.user,
        repo: b.repo,
        branch: match b.branch {
            Option::Some(s) => s,
            Option::None => "main"@,
        },
        remote_path: b.remote_path,
        local_path: match b.local_path {
            Option::Some(s) => s,
            Option::None => base_name_of(b.remote_path),
        },
    }
}

impl DownloaderBuilder {
    /// A builder for `(owner, repository, remote-path)` with the defaults
    /// still unset.
    pub fn new(user: &str, repo: &str, remote: &str) -> (r: Self)
        ensures
            r@ == (BuilderView {
                user: user@,
                repo: repo@,
                branch: Option::None,
                remote_path: remote@,
                local_path: Option::None,
            }),
    {
        DownloaderBuilder {
            user: String::from_str(user),
            repo: String::from_str(repo),
            branch: Option::None,
            remote_path: String::from_str(remote),
            local_path: Option::None,
        }
    }

    /// Override the branch the job fetches from.
    pub fn branch(self, branch: &str) -> (r: Self)
        ensures
            r@ == (BuilderView { branch: Option::Some(branch@), ..self@ }),
    {
        DownloaderBuilder {
            user: self.user,
            repo: self.repo,
            branch: Option::Some(String::from_str(branch)),
            remote_path: self.remote_path,
            local_path: self.local_path,
        }
    }

    /// Override the local destination: the remote path's base name, placed
    /// under `local`. The remote path must have a base name to place.
    pub fn local_path(self, local: &str) -> (r: Self)
        requires
            base_name_of(self.remote_path@).len() > 0,
        ensures
            r@ == (BuilderView {
                local_path: Option::Some(
                    joined(local@, base_name_of(self@.remote_path)),
                ),
                ..self@
            }),
    {
        let name = base_name(self.remote_path.as_str());
        let dest = join_path(local, name.as_str());
        DownloaderBuilder {
            user: self.user,
            repo: self.repo,
            branch: self.branch,
            remote_path: self.remote_path,
            local_path: Option::Some(dest),
        }
    }

    /// Finish the configuration: the branch defaults to `main`, the local
    /// destination to the base name of the remote path, which must exist.
    pub fn build(self) -> (r: Downloader)
        requires
            base_name_of(self.remote_path@).len() > 0,
        ensures
            r@ == built(self@),
    {
        let name = base_name(self.remote_path.as_str());
        let branch = match self.branch {
            Option::Some(b) => b,
            Option::None => String::from_str("main"),
        };
        let local = match self.local_path {
            Option::Some(l) => l,
            Option::None => name,
        };
        Downloader {
            user: self.user,
            repo: self.repo,
            branch,
            remote_path: self.remote_path,
            local_path: local,
        }
    }
}

} // verus!
