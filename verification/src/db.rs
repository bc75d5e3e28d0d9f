//! The activity store: tracked repository paths plus manually recorded notes.
//!
//! Paths are held as canonical path strings; the callers that read them from
//! the filesystem canonicalize before registering. Note timestamps are UTC
//! seconds since the Unix epoch.

use vstd::prelude::*;

verus! {

/// A manually recorded free-text event; `date` is its capture time in UTC
/// seconds since the Unix epoch.
#[derive(Debug, Clone)]
pub struct ManuelEntry {
    pub message: String,
    pub date: i64,
}

/// The persisted aggregate: tracked repository paths and note entries.
#[derive(Debug)]
pub struct Database {
    pub repositories: Vec<String>,
    pub entries: Vec<ManuelEntry>,
}

/// No two held paths are equal.
pub open spec fn spec_unique(s: Seq<Seq<char>>) -> bool {
    forall|i: int, j: int| 0 <= i < j < s.len() ==> s[i] != s[j]
}

/// One registration step: append `p` unless it is already present.
pub open spec fn spec_add_repo(repos: Seq<Seq<char>>, p: Seq<char>) -> Seq<Seq<char>> {
    if repos.contains(p) {
        repos
    } else {
        repos.push(p)
    }
}

/// Registration of a batch of paths, first to last, each skipped when
/// already present.
pub open spec fn spec_add_repos(repos: Seq<Seq<char>>, paths: Seq<Seq<char>>) -> Seq<Seq<char>>
    decreases paths.len(),
{
    if paths.len() == 0 {
        repos
    } else {
        spec_add_repos(spec_add_repo(repos, paths[0]), paths.drop_first())
    }
}

proof fn lemma_add_repos_keeps(repos: Seq<Seq<char>>, paths: Seq<Seq<char>>, q: Seq<char>)
    requires
        repos.contains(q),
    ensures
        spec_add_repos(repos, paths).contains(q),
    decreases paths.len(),
{
    if paths.len() > 0 {
        let step = spec_add_repo(repos, paths[0]);
        if !repos.contains(paths[0]) {
            let k = choose|k: int| 0 <= k < repos.len() && repos[k] == q;
            assert(step[k] == q);
        }
        lemma_add_repos_keeps(step, paths.drop_first(), q);
    }
}

proof fn lemma_add_repos_holds_each(repos: Seq<Seq<char>>, paths: Seq<Seq<char>>, j: int)
    requires
        0 <= j < paths.len(),
    ensures
        spec_add_repos(repos, paths).contains(paths[j]),
    decreases paths.len(),
{
    let step = spec_add_repo(repos, paths[0]);
    if j == 0 {
        if repos.contains(paths[0]) {
            lemma_add_repos_keeps(repos, paths, paths[0]);
        } else {
            assert(step[repos.len() as int] == paths[0]);
            lemma_add_repos_keeps(step, paths.drop_first(), paths[0]);
        }
    } else {
        lemma_add_repos_holds_each(step, paths.drop_first(), j - 1);
        assert(paths.drop_first()[j - 1] == paths[j]);
    }
}

proof fn lemma_add_repos_all_present(repos: Seq<Seq<char>>, paths: Seq<Seq<char>>)
    requires
        forall|j: int| 0 <= j < paths.len() ==> repos.contains(#[trigger] paths[j]),
    ensures
        spec_add_repos(repos, paths) == repos,
    decreases paths.len(),
{
    if paths.len() > 0 {
        assert(repos.contains(paths[0]));
        assert forall|j: int| 0 <= j < paths.drop_first().len() implies repos.contains(
            #[trigger] paths.drop_first()[j],
        ) by {
            assert(paths.drop_first()[j] == paths[j + 1]);
        }
        lemma_add_repos_all_present(repos, paths.drop_first());
    }
}

/// Registering a batch of paths a second time changes nothing: every path of
/// the batch is already present after the first registration.
pub proof fn lemma_add_repos_idempotent(repos: Seq<Seq<char>>, paths: Seq<Seq<char>>)
    ensures
        spec_add_repos(spec_add_repos(repos, paths), paths) == spec_add_repos(repos, paths),
{
    let once = spec_add_repos(repos, paths);
    assert forall|j: int| 0 <= j < paths.len() implies once.contains(#[trigger] paths[j]) by {
        lemma_add_repos_holds_each(repos, paths, j);
    }
    lemma_add_repos_all_present(once, paths);
}

proof fn lemma_add_repos_unique(repos: Seq<Seq<char>>, paths: Seq<Seq<char>>)
    requires
        spec_unique(repos),
    ensures
        spec_unique(spec_add_repos(repos, paths)),
    decreases paths.len(),
{
    if paths.len() > 0 {
        let step = spec_add_repo(repos, paths[0]);
        if !repos.contains(paths[0]) {
            assert forall|i: int, j: int| 0 <= i < j < step.len() implies step[i] != step[j] by {
                if j == repos.len() {
                    assert(!repos.contains(paths[0]));
                    assert(repos[i] != paths[0]);
                }
            }
        }
        lemma_add_repos_unique(step, paths.drop_first());
    }
}

impl Database {
    /// The store's invariant: no repository path is held twice.
    pub open spec fn wf(&self) -> bool {
        spec_unique(self.repositories.deep_view())
    }

    /// True when `p` is already a tracked repository path.
    fn contains_repo(&self, p: &String) -> (r: bool)
        ensures
            r == self.repositories.deep_view().contains(p@),
    {
        let n = self.repositories.len();
        let mut j: usize = 0;
        while j < n
            invariant
                0 <= j <= n,
                n == self.repositories.len(),
                forall|k: int| 0 <= k < j ==> self.repositories.deep_view()[k] != p@,
            decreases n - j,
        {
            if self.repositories[j].eq(p) {
                proof {
                    assert(self.repositories.deep_view()[j as int] == p@);
                }
                return true;
            }
            j += 1;
        }
        false
    }

    /// Registers the given paths: each is appended unless an equal path is
    /// already tracked, so registering the same batch twice changes nothing.
    pub fn add_repos(&mut self, paths: Vec<String>)
        ensures
            final(self).repositories.deep_view() == spec_add_repos(
                old(self).repositories.deep_view(),
                paths.deep_view(),
            ),
            final(self).entries == old(self).entries,
            old(self).wf() ==> final(self).wf(),
    {
        let n = paths.len();
        let mut i: usize = 0;
        proof {
            assert(paths.deep_view().skip(0) =~= paths.deep_view());
        }
        while i < n
            invariant
                0 <= i <= n,
                n == paths.len(),
                self.entries == old(self).entries,
                spec_add_repos(self.repositories.deep_view(), paths.deep_view().skip(i as int))
                    == spec_add_repos(old(self).repositories.deep_view(), paths.deep_view()),
            decreases n - i,
        {
            let ghost pre = self.repositories.deep_view();
            let ghost rest = paths.deep_view().skip(i as int);
            let p = paths[i].clone();
            proof {
                assert(rest[0] == paths.deep_view()[i as int]);
                assert(rest.drop_first() =~= paths.deep_view().skip(i + 1));
            }
            if !self.contains_repo(&p) {
                self.repositories.push(p);
                proof {
                    assert(self.repositories.deep_view() =~= pre.push(
                        paths.deep_view()[i as int],
                    ));
                }
            }
            proof {
                assert(self.repositories.deep_view() == spec_add_repo(
                    pre,
                    paths.deep_view()[i as int],
                ));
            }
            i += 1;
        }
        proof {
            assert(paths.deep_view().skip(n as int) =~= Seq::<Seq<char>>::empty());
            if old(self).wf() {
                lemma_add_repos_unique(old(self).repositories.deep_view(), paths.deep_view());
            }
        }
    }

    /// Appends a note entry with the given message and capture time. Notes
    /// are never deduplicated: distinct notes may share identical text.
    pub fn add_entry_at(&mut self, message: String, date: i64)
        ensures
            final(self).entries@ == old(self).entries@.push(
                (ManuelEntry { message: message, date: date }),
            ),
            final(self).repositories == old(self).repositories,
    {
        self.entries.push(ManuelEntry { message, date });
    }

    /// Appends a note entry stamped with the current UTC time.
    pub fn add_entry(&mut self, message: String)
        ensures
            final(self).entries@.len() == old(self).entries@.len() + 1,
            final(self).entries@.drop_last() == old(self).entries@,
            final(self).entries@.last().message == message,
            final(self).repositories == old(self).repositories,
    {
        let now = now_utc_seconds();
        self.add_entry_at(message, now);
        proof {
            assert(self.entries@.drop_last() =~= old(self).entries@);
        }
    }
}

impl Default for Database {
    /// The empty store: no tracked repositories, no notes. Loading when no
    /// persisted file exists yields this value.
    fn default() -> (r: Self)
        ensures
            r.repositories@.len() == 0,
            r.entries@.len() == 0,
            r.wf(),
    {
        let r = Database { repositories: Vec::new(), entries: Vec::new() };
        proof {
            assert(r.repositories.deep_view() =~= Seq::<Seq<char>>::empty());
        }
        r
    }
}

/// Relies on `chrono::Utc::now`: the current time, read from the system
/// clock, as seconds since the Unix epoch. Nothing is promised of the value.
#[verifier::external_body]
fn now_utc_seconds() -> (r: i64) {
    chrono::Utc::now().timestamp()
}

} // verus!
