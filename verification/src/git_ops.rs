//! Commit extraction: reads the history reachable from a repository's head,
//! newest first, truncates it at the first commit older than a cutoff, and
//! applies an optional case-insensitive author filter.

use vstd::prelude::*;

use crate::textutil::{ci_match, first_line, spec_ci_match, spec_first_line, spec_trim, trim};

verus! {

#[verifier::external_type_specification]
#[verifier::external_body]
pub struct ExRepository(git2::Repository);

#[verifier::external_type_specification]
#[verifier::external_body]
pub struct ExGitError(git2::Error);

#[verifier::external_type_specification]
#[verifier::external_body]
pub struct ExOid(git2::Oid);

/// The data of one commit as read from a repository: commit time in UTC
/// seconds, author display name and full message (`None` when git reports
/// them as not valid UTF-8), and the commit id in lowercase hex.
pub struct RawCommit {
    pub time: i64,
    pub author: Option<String>,
    pub message: Option<String>,
    pub id_hex: String,
}

/// One commit of the report: the first line of its message, trimmed; the
/// author's display name, `"Unknown"` when absent; the commit time in UTC
/// seconds; the first seven hex digits of the commit id.
#[derive(Debug, Clone)]
pub struct CommitLog {
    pub message: String,
    pub author: String,
    pub date: i64,
    pub hash: String,
}

/// Why extraction failed for a repository.
#[derive(Debug, PartialEq, Eq, Structural, Clone, Copy)]
pub enum GitFetchError {
    /// The path is not a git working copy.
    RepositoryNotFound,
    /// The repository opened, but its history could not be read.
    ReadFailed,
}

/// The author name used for a commit record.
pub open spec fn spec_author_name(c: RawCommit) -> Seq<char> {
    match c.author {
        Some(a) => a@,
        None => "Unknown"@,
    }
}

/// The message text used for a commit record; an unreadable message counts
/// as empty.
pub open spec fn spec_message_text(c: RawCommit) -> Seq<char> {
    match c.message {
        Some(m) => m@,
        None => Seq::<char>::empty(),
    }
}

/// Whether a commit passes the author filter: no filter keeps everything,
/// a filter keeps the commit when it matches the author name
/// case-insensitively as a substring.
pub open spec fn spec_keep(c: RawCommit, filter: Option<Seq<char>>) -> bool {
    match filter {
        None => true,
        Some(f) => spec_ci_match(spec_author_name(c), f),
    }
}

/// The shape of one record: (message, author, time, short hash).
pub open spec fn spec_record_of(c: RawCommit) -> (Seq<char>, Seq<char>, int, Seq<char>) {
    (
        spec_trim(spec_first_line(spec_message_text(c))),
        spec_author_name(c),
        c.time as int,
        c.id_hex@.take(7),
    )
}

/// The same shape taken from a built record.
pub open spec fn spec_log_view(l: CommitLog) -> (Seq<char>, Seq<char>, int, Seq<char>) {
    (l.message@, l.author@, l.date as int, l.hash@)
}

/// The filter's text, when there is one.
pub open spec fn spec_filter_view(f: Option<String>) -> Option<Seq<char>> {
    match f {
        None => None,
        Some(s) => Some(s@),
    }
}

/// Extraction over a commit sequence given newest first: stop at the first
/// commit strictly older than `since` (never merely skip it), keep the
/// commits the author filter accepts, and shape each kept commit.
pub open spec fn spec_extract(raw: Seq<RawCommit>, since: int, filter: Option<Seq<char>>) -> Seq<
    (Seq<char>, Seq<char>, int, Seq<char>),
>
    decreases raw.len(),
{
    if raw.len() == 0 {
        Seq::empty()
    } else if raw[0].time < since {
        Seq::empty()
    } else if spec_keep(raw[0], filter) {
        seq![spec_record_of(raw[0])] + spec_extract(raw.drop_first(), since, filter)
    } else {
        spec_extract(raw.drop_first(), since, filter)
    }
}

/// Shapes one raw commit into its report record.
fn record_of(c: &RawCommit) -> (r: CommitLog)
    requires
        c.id_hex@.len() >= 7,
    ensures
        spec_log_view(r) == spec_record_of(*c),
{
    let author: String = match &c.author {
        Some(a) => a.clone(),
        None => "Unknown".to_owned(),
    };
    let msg: &str = match &c.message {
        Some(m) => m.as_str(),
        None => "",
    };
    proof {
        if c.message is None {
            reveal_strlit("");
            assert(""@ =~= Seq::<char>::empty());
        }
    }
    let line = first_line(msg);
    let message = trim(line);
    let hash_full = c.id_hex.as_str();
    let short = hash_full.substring_char(0, 7);
    let hash = short.to_owned();
    proof {
        assert(c.id_hex@.subrange(0, 7) =~= c.id_hex@.take(7));
    }
    CommitLog { message, author, date: c.time, hash }
}

/// Whether a raw commit passes the author filter.
fn keep(c: &RawCommit, filter: &Option<String>) -> (r: bool)
    ensures
        r == spec_keep(*c, spec_filter_view(*filter)),
{
    match filter {
        None => true,
        Some(f) => {
            let author: &str = match &c.author {
                Some(a) => a.as_str(),
                None => "Unknown",
            };
            ci_match(author, f.as_str())
        },
    }
}

/// Builds the report records from raw commits given newest first: truncates
/// at the first commit older than `since`, keeps the commits whose author
/// matches `filter`, and shapes each kept commit.
pub fn logs_from_raw(raw: &Vec<RawCommit>, since: i64, filter: &Option<String>) -> (r: Vec<
    CommitLog,
>)
    requires
        forall|i: int| 0 <= i < raw@.len() ==> raw@[i].id_hex@.len() >= 7,
    ensures
        r@.map_values(|l: CommitLog| spec_log_view(l)) == spec_extract(
            raw@,
            since as int,
            spec_filter_view(*filter),
        ),
{
    let ghost fv = spec_filter_view(*filter);
    let mut out: Vec<CommitLog> = Vec::new();
    let n = raw.len();
    let mut i: usize = 0;
    proof {
        assert(raw@.skip(0) =~= raw@);
        assert(out@.map_values(|l: CommitLog| spec_log_view(l)) =~= Seq::<
            (Seq<char>, Seq<char>, int, Seq<char>),
        >::empty());
    }
    while i < n
        invariant
            0 <= i <= n,
            n == raw@.len(),
            fv == spec_filter_view(*filter),
            forall|k: int| 0 <= k < raw@.len() ==> raw@[k].id_hex@.len() >= 7,
            out@.map_values(|l: CommitLog| spec_log_view(l)) + spec_extract(
                raw@.skip(i as int),
                since as int,
                fv,
            ) == spec_extract(raw@, since as int, fv),
        decreases n - i,
    {
        let ghost rest = raw@.skip(i as int);
        proof {
            assert(rest[0] == raw@[i as int]);
            assert(rest.drop_first() =~= raw@.skip(i + 1));
        }
        let c = &raw[i];
        if c.time < since {
            proof {
                assert(spec_extract(rest, since as int, fv) =~= Seq::<
                    (Seq<char>, Seq<char>, int, Seq<char>),
                >::empty());
            }
            return out;
        }
        if keep(c, filter) {
            let rec = record_of(c);
            let ghost pre = out@.map_values(|l: CommitLog| spec_log_view(l));
            out.push(rec);
            proof {
                assert(out@.map_values(|l: CommitLog| spec_log_view(l)) =~= pre.push(
                    spec_record_of(raw@[i as int]),
                ));
                assert(spec_extract(rest, since as int, fv) == seq![
                    spec_record_of(raw@[i as int]),
                ] + spec_extract(raw@.skip(i + 1), since as int, fv));
                assert(pre.push(spec_record_of(raw@[i as int])) =~= pre + seq![
                    spec_record_of(raw@[i as int]),
                ]);
            }
        }
        i += 1;
    }
    proof {
        assert(raw@.skip(n as int) =~= Seq::<RawCommit>::empty());
    }
    out
}

/// Relies on `git2::Repository::open`: opens the repository at `path`;
/// returns git2's error when the path is not a git working copy.
#[verifier::external_body]
fn repo_open(path: &String) -> (r: Result<git2::Repository, git2::Error>) {
    git2::Repository::open(path.as_str())
}

/// Relies on `git2::Repository::revwalk`, `Revwalk::push_head`,
/// `Revwalk::set_sorting` with `git2::Sort::TIME` and `Revwalk`'s `Iterator`
/// impl: the ids of the commits reachable from the current head, in
/// commit-time order, most recent first. `Ok(None)` stands for an unborn
/// head (`push_head` failed), which extraction treats as an empty history.
#[verifier::external_body]
fn head_commit_ids(repo: &git2::Repository) -> (r: Result<Option<Vec<git2::Oid>>, git2::Error>) {
    let mut walk = repo.revwalk()?;
    if walk.push_head().is_err() {
        return Ok(None);
    }
    walk.set_sorting(git2::Sort::TIME)?;
    let mut ids: Vec<git2::Oid> = Vec::new();
    for id in walk {
        ids.push(id?);
    }
    Ok(Some(ids))
}

/// Relies on `git2::Repository::find_commit` and the accessors
/// `Commit::time`, `Commit::author`, `Signature::name` and `Commit::message`,
/// and on `git2::Oid`'s `Display`, which hex-encodes the 20-byte SHA-1 object
/// id as 40 digits: reads one commit into plain values. `author` and
/// `message` are `None` where git2 reports them as not valid UTF-8.
#[verifier::external_body]
fn read_commit(repo: &git2::Repository, id: &git2::Oid) -> (r: Result<RawCommit, git2::Error>)
    ensures
        r matches Ok(c) ==> c.id_hex@.len() == 40,
{
    let commit = repo.find_commit(*id)?;
    let time = commit.time().seconds();
    let author = commit.author().name().ok().map(|s| s.to_string());
    let message = commit.message().ok().map(|s| s.to_string());
    Ok(RawCommit { time, author, message, id_hex: id.to_string() })
}

/// Reads the commits reachable from the head of the repository at
/// `repo_path`, newest first, stopping at the first commit whose time is
/// strictly older than `since`. Every returned record has a time at or after
/// `since`; an unborn head yields an empty list; a path that is not a
/// repository yields `RepositoryNotFound`, any later read failure
/// `ReadFailed`. The records are the extraction (see [`spec_extract`]) of
/// the raw commit data that the walk produced.
pub fn fetch_commits(repo_path: &String, since: i64, author_filter: &Option<String>) -> (r: Result<
    Vec<CommitLog>,
    GitFetchError,
>)
    ensures
        r matches Ok(logs) ==> exists|raw: Seq<RawCommit>|
            logs@.map_values(|l: CommitLog| spec_log_view(l)) == spec_extract(
                raw,
                since as int,
                spec_filter_view(*author_filter),
            ),
        r matches Ok(logs) ==> forall|k: int|
            0 <= k < logs@.len() ==> (#[trigger] logs@[k]).date >= since,
        r matches Ok(logs) ==> forall|k: int|
            0 <= k < logs@.len() ==> (#[trigger] logs@[k]).hash@.len() == 7,
{
    let repo = match repo_open(repo_path) {
        Ok(repo) => repo,
        Err(_) => {
            return Err(GitFetchError::RepositoryNotFound);
        },
    };
    let ids = match head_commit_ids(&repo) {
        Ok(Some(ids)) => ids,
        Ok(None) => {
            let empty: Vec<CommitLog> = Vec::new();
            proof {
                let raw0 = Seq::<RawCommit>::empty();
                assert(empty@.map_values(|l: CommitLog| spec_log_view(l)) =~= spec_extract(
                    raw0,
                    since as int,
                    spec_filter_view(*author_filter),
                ));
            }
            return Ok(empty);
        },
        Err(_) => {
            return Err(GitFetchError::ReadFailed);
        },
    };
    let mut raw: Vec<RawCommit> = Vec::new();
    let n = ids.len();
    let mut i: usize = 0;
    while i < n
        invariant
            0 <= i <= n,
            n == ids@.len(),
            forall|k: int| 0 <= k < raw@.len() ==> (#[trigger] raw@[k]).id_hex@.len() == 40,
            forall|k: int| 0 <= k < raw@.len() ==> (#[trigger] raw@[k]).time >= since,
        decreases n - i,
    {
        let c = match read_commit(&repo, &ids[i]) {
            Ok(c) => c,
            Err(_) => {
                return Err(GitFetchError::ReadFailed);
            },
        };
        if c.time < since {
            let logs = logs_from_raw(&raw, since, author_filter);
            proof {
                lemma_extract_in_range(raw@, since as int, spec_filter_view(*author_filter));
                lemma_log_bounds(logs@, raw@, since as int, spec_filter_view(*author_filter));
            }
            return Ok(logs);
        }
        raw.push(c);
        i += 1;
    }
    let logs = logs_from_raw(&raw, since, author_filter);
    proof {
        lemma_extract_in_range(raw@, since as int, spec_filter_view(*author_filter));
        lemma_log_bounds(logs@, raw@, since as int, spec_filter_view(*author_filter));
    }
    Ok(logs)
}

/// Every record of an extraction keeps the time of a commit at or after the
/// cutoff, and a seven-character short hash when every raw id is long enough.
proof fn lemma_extract_in_range(raw: Seq<RawCommit>, since: int, filter: Option<Seq<char>>)
    requires
        forall|i: int| 0 <= i < raw.len() ==> (#[trigger] raw[i]).id_hex@.len() >= 7,
    ensures
        forall|k: int|
            0 <= k < spec_extract(raw, since, filter).len() ==> (#[trigger] spec_extract(
                raw,
                since,
                filter,
            )[k]).2 >= since,
        forall|k: int|
            0 <= k < spec_extract(raw, since, filter).len() ==> (#[trigger] spec_extract(
                raw,
                since,
                filter,
            )[k]).3.len() == 7,
    decreases raw.len(),
{
    if raw.len() > 0 && raw[0].time >= since {
        lemma_extract_in_range(raw.drop_first(), since, filter);
        let e = spec_extract(raw, since, filter);
        let t = spec_extract(raw.drop_first(), since, filter);
        if spec_keep(raw[0], filter) {
            assert forall|k: int|
                0 <= k < e.len() implies (#[trigger] e[k]).2 >= since && e[k].3.len() == 7 by {
                if k == 0 {
                    assert(e[0] == spec_record_of(raw[0]));
                    assert(raw[0].id_hex@.take(7).len() == 7);
                } else {
                    assert(e[k] == t[k - 1]);
                }
            }
        }
    }
}

proof fn lemma_log_bounds(
    logs: Seq<CommitLog>,
    raw: Seq<RawCommit>,
    since: int,
    filter: Option<Seq<char>>,
)
    requires
        logs.map_values(|l: CommitLog| spec_log_view(l)) == spec_extract(raw, since, filter),
        forall|k: int|
            0 <= k < spec_extract(raw, since, filter).len() ==> (#[trigger] spec_extract(
                raw,
                since,
                filter,
            )[k]).2 >= since,
        forall|k: int|
            0 <= k < spec_extract(raw, since, filter).len() ==> (#[trigger] spec_extract(
                raw,
                since,
                filter,
            )[k]).3.len() == 7,
    ensures
        forall|k: int| 0 <= k < logs.len() ==> (#[trigger] logs[k]).date >= since,
        forall|k: int| 0 <= k < logs.len() ==> (#[trigger] logs[k]).hash@.len() == 7,
{
    assert forall|k: int|
        0 <= k < logs.len() implies (#[trigger] logs[k]).date >= since && logs[k].hash@.len()
        == 7 by {
        assert(logs.map_values(|l: CommitLog| spec_log_view(l))[k] == spec_log_view(logs[k]));
    }
}

/// Monotonic truncation: over a history whose commit times never increase
/// (newest first) and with no author filter, extraction returns exactly the
/// records of the commits at or after the cutoff, in the given order.
pub proof fn lemma_monotonic_truncation(raw: Seq<RawCommit>, since: int)
    requires
        forall|i: int, j: int| 0 <= i <= j < raw.len() ==> (#[trigger] raw[i]).time >= (
        #[trigger] raw[j]).time,
    ensures
        spec_extract(raw, since, None) == raw.filter(|c: RawCommit| c.time >= since).map_values(
            |c: RawCommit| spec_record_of(c),
        ),
    decreases raw.len(),
{
    reveal(Seq::filter);
    if raw.len() == 0 {
        assert(raw.filter(|c: RawCommit| c.time >= since) =~= Seq::<RawCommit>::empty());
        assert(spec_extract(raw, since, None) =~= raw.filter(
            |c: RawCommit| c.time >= since,
        ).map_values(|c: RawCommit| spec_record_of(c)));
    } else if raw[0].time < since {
        assert forall|k: int| 0 <= k < raw.len() implies !((#[trigger] raw[k]).time >= since) by {
            assert(raw[0].time >= raw[k].time);
        }
        lemma_filter_none(raw, since);
        assert(spec_extract(raw, since, None) =~= raw.filter(
            |c: RawCommit| c.time >= since,
        ).map_values(|c: RawCommit| spec_record_of(c)));
    } else {
        lemma_monotonic_truncation(raw.drop_first(), since);
        lemma_filter_first_kept(raw, since);
        assert(spec_extract(raw, since, None) =~= seq![spec_record_of(raw[0])] + spec_extract(
            raw.drop_first(),
            since,
            None,
        ));
        assert(raw.filter(|c: RawCommit| c.time >= since).map_values(
            |c: RawCommit| spec_record_of(c),
        ) =~= seq![spec_record_of(raw[0])] + raw.drop_first().filter(
            |c: RawCommit| c.time >= since,
        ).map_values(|c: RawCommit| spec_record_of(c)));
    }
}

/// A sequence whose members all fail the time test filters to empty.
proof fn lemma_filter_none(raw: Seq<RawCommit>, since: int)
    requires
        forall|k: int| 0 <= k < raw.len() ==> !((#[trigger] raw[k]).time >= since),
    ensures
        raw.filter(|c: RawCommit| c.time >= since) == Seq::<RawCommit>::empty(),
    decreases raw.len(),
{
    reveal(Seq::filter);
    if raw.len() > 0 {
        lemma_filter_none(raw.drop_last(), since);
    }
}

/// When the first member passes the time test, filtering keeps it in front.
proof fn lemma_filter_first_kept(raw: Seq<RawCommit>, since: int)
    requires
        raw.len() > 0,
        raw[0].time >= since,
    ensures
        raw.filter(|c: RawCommit| c.time >= since) == seq![raw[0]] + raw.drop_first().filter(
            |c: RawCommit| c.time >= since,
        ),
    decreases raw.len(),
{
    reveal(Seq::filter);
    if raw.len() == 1 {
        assert(raw.drop_first() =~= Seq::<RawCommit>::empty());
        assert(raw.filter(|c: RawCommit| c.time >= since) =~= seq![raw[0]]);
        assert(seq![raw[0]] + raw.drop_first().filter(|c: RawCommit| c.time >= since) =~= seq![
            raw[0],
        ]);
    } else {
        lemma_filter_first_kept(raw.drop_last(), since);
        assert(raw.drop_last()[0] == raw[0]);
        assert(raw.drop_last().drop_first() =~= raw.drop_first().drop_last());
        let f = |c: RawCommit| c.time >= since;
        if f(raw.last()) {
            assert(raw.filter(f) =~= raw.drop_last().filter(f).push(raw.last()));
            assert(raw.drop_first().filter(f) =~= raw.drop_first().drop_last().filter(f).push(
                raw.last(),
            ));
            assert(raw.filter(f) =~= seq![raw[0]] + raw.drop_first().filter(f));
        } else {
            assert(raw.filter(f) =~= raw.drop_last().filter(f));
            assert(raw.drop_first().filter(f) =~= raw.drop_first().drop_last().filter(f));
            assert(raw.filter(f) =~= seq![raw[0]] + raw.drop_first().filter(f));
        }
    }
}

} // verus!
