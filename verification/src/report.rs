//! The plain-text log handed to the summarization service: one block per
//! repository with commits, then the kept notes.

use vstd::prelude::*;

use crate::db::ManuelEntry;
use crate::git_ops::CommitLog;
use crate::textutil::{spec_trim, trim};

verus! {

/// The last path segment: the characters after the final `/`. Used as a
/// repository's display name; a canonical absolute path has no trailing
/// separator.
pub open spec fn spec_basename(p: Seq<char>) -> Seq<char>
    decreases p.len(),
{
    if p.len() == 0 {
        Seq::empty()
    } else if p.last() == '/' {
        Seq::empty()
    } else {
        spec_basename(p.drop_last()).push(p.last())
    }
}

proof fn lemma_basename_at(p: Seq<char>, j: int)
    requires
        0 <= j <= p.len(),
        forall|k: int| j <= k < p.len() ==> p[k] != '/',
        j > 0 ==> p[j - 1] == '/',
    ensures
        spec_basename(p) == p.subrange(j, p.len() as int),
    decreases p.len(),
{
    if j == p.len() {
        assert(p.subrange(j, p.len() as int) =~= Seq::<char>::empty());
    } else {
        lemma_basename_at(p.drop_last(), j);
        assert(p.drop_last().subrange(j, p.len() - 1) =~= p.subrange(j, p.len() - 1));
        assert(p.subrange(j, p.len() - 1).push(p.last()) =~= p.subrange(j, p.len() as int));
    }
}

/// The last path segment of `p`, its repository display name.
pub fn basename(p: &str) -> (r: String)
    ensures
        r@ == spec_basename(p@),
{
    let n = p.unicode_len();
    let mut j: usize = n;
    while j > 0 && p.get_char(j - 1) != '/'
        invariant
            0 <= j <= n,
            n == p@.len(),
            forall|k: int| j <= k < n ==> p@[k] != '/',
        decreases j,
    {
        j -= 1;
    }
    proof {
        lemma_basename_at(p@, j as int);
    }
    p.substring_char(j, n).to_owned()
}

/// One `- message` line for each commit, in order.
pub open spec fn spec_commit_lines(logs: Seq<CommitLog>) -> Seq<char>
    decreases logs.len(),
{
    if logs.len() == 0 {
        Seq::empty()
    } else {
        "- "@ + logs[0].message@ + "\n"@ + spec_commit_lines(logs.drop_first())
    }
}

/// A repository's block: nothing when it has no commits, else a `Project:`
/// header, its commit lines, and a blank line.
pub open spec fn spec_repo_chunk(name: Seq<char>, logs: Seq<CommitLog>) -> Seq<char> {
    if logs.len() == 0 {
        Seq::empty()
    } else {
        "Project: "@ + name + "\n"@ + spec_commit_lines(logs) + "\n"@
    }
}

/// All repository blocks, in order.
pub open spec fn spec_repo_chunks(groups: Seq<(String, Vec<CommitLog>)>) -> Seq<char>
    decreases groups.len(),
{
    if groups.len() == 0 {
        Seq::empty()
    } else {
        spec_repo_chunk(groups[0].0@, groups[0].1@) + spec_repo_chunks(groups.drop_first())
    }
}

/// One `Note:` line for each note dated strictly after `since`, trimmed.
pub open spec fn spec_note_lines(notes: Seq<ManuelEntry>, since: i64) -> Seq<char>
    decreases notes.len(),
{
    if notes.len() == 0 {
        Seq::empty()
    } else {
        let rest = spec_note_lines(notes.drop_first(), since);
        if notes[0].date > since {
            "Note: "@ + spec_trim(notes[0].message@) + "\n"@ + rest
        } else {
            rest
        }
    }
}

/// Whether any note is dated strictly after `since`.
pub open spec fn spec_has_note(notes: Seq<ManuelEntry>, since: i64) -> bool
    decreases notes.len(),
{
    if notes.len() == 0 {
        false
    } else {
        notes[0].date > since || spec_has_note(notes.drop_first(), since)
    }
}

/// The whole log text: the repository blocks, then, when any note is kept,
/// a notes header and the note lines.
pub open spec fn spec_logs_text(
    groups: Seq<(String, Vec<CommitLog>)>,
    notes: Seq<ManuelEntry>,
    since: i64,
) -> Seq<char> {
    spec_repo_chunks(groups) + if spec_has_note(notes, since) {
        "\n --- Manual Notes --\n"@ + spec_note_lines(notes, since)
    } else {
        Seq::<char>::empty()
    }
}

/// Builds the log text handed to the summarization service: a block per
/// repository that has commits, then the notes dated strictly after `since`.
pub fn collect_logs_as_string(
    commits_by_repo: &Vec<(String, Vec<CommitLog>)>,
    notes: &Vec<ManuelEntry>,
    since: i64,
) -> (r: String)
    ensures
        r@ == spec_logs_text(commits_by_repo@, notes@, since),
{
    let mut text = String::new();
    let gn = commits_by_repo.len();
    let mut i: usize = 0;
    proof {
        assert(commits_by_repo@.skip(0) =~= commits_by_repo@);
        assert(text@ + spec_repo_chunks(commits_by_repo@) =~= spec_repo_chunks(
            commits_by_repo@,
        ));
    }
    while i < gn
        invariant
            0 <= i <= gn,
            gn == commits_by_repo@.len(),
            text@ + spec_repo_chunks(commits_by_repo@.skip(i as int)) == spec_repo_chunks(
                commits_by_repo@,
            ),
        decreases gn - i,
    {
        let ghost rest = commits_by_repo@.skip(i as int);
        let ghost text0 = text@;
        proof {
            assert(rest[0] == commits_by_repo@[i as int]);
            assert(rest.drop_first() =~= commits_by_repo@.skip(i + 1));
        }
        let group = &commits_by_repo[i];
        let name: &String = &group.0;
        let logs: &Vec<CommitLog> = &group.1;
        if logs.len() > 0 {
            text.append("Project: ");
            text.append(name.as_str());
            text.append("\n");
            let ghost head = text@;
            let ln = logs.len();
            let mut j: usize = 0;
            proof {
                assert(logs@.skip(0) =~= logs@);
                assert(text@ + spec_commit_lines(logs@) =~= head + spec_commit_lines(logs@));
            }
            while j < ln
                invariant
                    0 <= j <= ln,
                    ln == logs@.len(),
                    text@ + spec_commit_lines(logs@.skip(j as int)) == head + spec_commit_lines(
                        logs@,
                    ),
                decreases ln - j,
            {
                let ghost lrest = logs@.skip(j as int);
                proof {
                    assert(lrest[0] == logs@[j as int]);
                    assert(lrest.drop_first() =~= logs@.skip(j + 1));
                }
                let c = &logs[j];
                text.append("- ");
                text.append(c.message.as_str());
                text.append("\n");
                j += 1;
            }
            proof {
                assert(spec_commit_lines(logs@.skip(ln as int)) =~= Seq::<char>::empty());
                assert(text@ =~= head + spec_commit_lines(logs@));
            }
            text.append("\n");
            proof {
                assert(text@ =~= text0 + spec_repo_chunk(name@, logs@));
            }
        }
        proof {
            assert(text@ + spec_repo_chunks(commits_by_repo@.skip(i + 1)) =~= text0
                + spec_repo_chunks(rest));
        }
        i += 1;
    }
    proof {
        assert(spec_repo_chunks(commits_by_repo@.skip(gn as int)) =~= Seq::<char>::empty());
        assert(text@ =~= spec_repo_chunks(commits_by_repo@));
    }
    let mut note_text = String::new();
    let mut any = false;
    let nn = notes.len();
    let mut k: usize = 0;
    proof {
        assert(notes@.skip(0) =~= notes@);
        assert(note_text@ + spec_note_lines(notes@, since) =~= spec_note_lines(notes@, since));
    }
    while k < nn
        invariant
            0 <= k <= nn,
            nn == notes@.len(),
            note_text@ + spec_note_lines(notes@.skip(k as int), since) == spec_note_lines(
                notes@,
                since,
            ),
            (any || spec_has_note(notes@.skip(k as int), since)) == spec_has_note(notes@, since),
        decreases nn - k,
    {
        let ghost nrest = notes@.skip(k as int);
        proof {
            assert(nrest[0] == notes@[k as int]);
            assert(nrest.drop_first() =~= notes@.skip(k + 1));
        }
        let e = &notes[k];
        if e.date > since {
            let msg = trim(e.message.as_str());
            note_text.append("Note: ");
            note_text.append(msg.as_str());
            note_text.append("\n");
            any = true;
        }
        k += 1;
    }
    proof {
        assert(spec_note_lines(notes@.skip(nn as int), since) =~= Seq::<char>::empty());
        assert(!spec_has_note(notes@.skip(nn as int), since));
        assert(note_text@ =~= spec_note_lines(notes@, since));
        assert(any == spec_has_note(notes@, since));
    }
    if any {
        text.append("\n --- Manual Notes --\n");
        text.append(note_text.as_str());
    }
    proof {
        if !spec_has_note(notes@, since) {
            assert(text@ =~= spec_logs_text(commits_by_repo@, notes@, since));
        } else {
            assert(text@ =~= spec_logs_text(commits_by_repo@, notes@, since));
        }
    }
    text
}

} // verus!
