//! The report timeline: commit and note events merged into one sequence
//! ordered by timestamp, and the cutoff that bounds the report window.

use vstd::multiset::Multiset;
use vstd::prelude::*;

use crate::db::ManuelEntry;
use crate::git_ops::CommitLog;

verus! {

broadcast use vstd::seq_lib::group_to_multiset_ensures;

/// One event of the report timeline: a commit tagged with its repository's
/// display name, or a manual note.
#[derive(Debug)]
pub enum TimelineEvent {
    Commit(CommitLog, String),
    Note(ManuelEntry),
}

impl TimelineEvent {
    /// The timestamp that orders the event, in UTC seconds.
    pub open spec fn spec_date(&self) -> i64 {
        match self {
            TimelineEvent::Commit(c, _) => c.date,
            TimelineEvent::Note(n) => n.date,
        }
    }

    /// Executable twin of [`TimelineEvent::spec_date`].
    pub fn date(&self) -> (r: i64)
        ensures
            r == self.spec_date(),
    {
        match self {
            TimelineEvent::Commit(c, _) => c.date,
            TimelineEvent::Note(n) => n.date,
        }
    }
}

/// Ascending by timestamp.
pub open spec fn spec_sorted(s: Seq<TimelineEvent>) -> bool {
    forall|i: int, j: int| 0 <= i < j < s.len() ==> s[i].spec_date() <= s[j].spec_date()
}

/// A repository's commits turned into tagged events, in their given order.
pub open spec fn spec_tagged(name: String, logs: Seq<CommitLog>) -> Seq<TimelineEvent> {
    logs.map_values(|c: CommitLog| TimelineEvent::Commit(c, name))
}

/// All repository groups flattened into tagged events, group order kept.
pub open spec fn spec_flatten(groups: Seq<(String, Vec<CommitLog>)>) -> Seq<TimelineEvent>
    decreases groups.len(),
{
    if groups.len() == 0 {
        Seq::empty()
    } else {
        spec_tagged(groups[0].0, groups[0].1@) + spec_flatten(groups.drop_first())
    }
}

/// The notes whose timestamp is strictly after `since`, as note events, in
/// their given order. Commits are not filtered here: they arrive already
/// bounded by the extractor's cutoff.
pub open spec fn spec_kept_notes(notes: Seq<ManuelEntry>, since: i64) -> Seq<TimelineEvent>
    decreases notes.len(),
{
    if notes.len() == 0 {
        Seq::empty()
    } else {
        let rest = spec_kept_notes(notes.drop_first(), since);
        if notes[0].date > since {
            seq![TimelineEvent::Note(notes[0])] + rest
        } else {
            rest
        }
    }
}

/// Everything the merged timeline must hold: every tagged commit event, and
/// every note after `since`.
pub open spec fn spec_merge_input(
    groups: Seq<(String, Vec<CommitLog>)>,
    notes: Seq<ManuelEntry>,
    since: i64,
) -> Seq<TimelineEvent> {
    spec_flatten(groups) + spec_kept_notes(notes, since)
}

/// The first position whose event is strictly later than `t`, in a sorted
/// vector.
fn insert_pos(out: &Vec<TimelineEvent>, t: i64) -> (p: usize)
    requires
        spec_sorted(out@),
    ensures
        p <= out@.len(),
        forall|k: int| 0 <= k < p ==> out@[k].spec_date() <= t,
        forall|k: int| p <= k < out@.len() ==> out@[k].spec_date() > t,
{
    let n = out.len();
    let mut p: usize = 0;
    while p < n && out[p].date() <= t
        invariant
            0 <= p <= n,
            n == out@.len(),
            forall|k: int| 0 <= k < p ==> out@[k].spec_date() <= t,
        decreases n - p,
    {
        p += 1;
    }
    proof {
        assert forall|k: int| p <= k < out@.len() implies out@[k].spec_date() > t by {
            if p < out@.len() {
                assert(out@[p as int].spec_date() <= out@[k].spec_date());
            }
        }
    }
    p
}

/// Sorts events ascending by timestamp. The result holds exactly the given
/// events; the order of events with equal timestamps is not specified.
pub fn sort_events(events: Vec<TimelineEvent>) -> (r: Vec<TimelineEvent>)
    ensures
        spec_sorted(r@),
        r@.to_multiset() == events@.to_multiset(),
{
    broadcast use vstd::seq_lib::to_multiset_insert;

    let mut rest = events;
    let mut out: Vec<TimelineEvent> = Vec::new();
    proof {
        assert(out@.to_multiset() =~= Multiset::<TimelineEvent>::empty());
        assert(out@.to_multiset().add(rest@.to_multiset()) =~= events@.to_multiset());
    }
    while rest.len() > 0
        invariant
            spec_sorted(out@),
            out@.to_multiset().add(rest@.to_multiset()) == events@.to_multiset(),
        decreases rest@.len(),
    {
        let ghost rest0 = rest@;
        let ghost out0 = out@;
        let ev = rest.remove(0);
        let p = insert_pos(&out, ev.date());
        out.insert(p, ev);
        proof {
            assert(rest0.to_multiset().contains(ev)) by {
                assert(rest0[0] == ev);
                assert(rest0.contains(ev));
            }
            assert(rest@.to_multiset() =~= rest0.to_multiset().remove(ev));
            assert(out@.to_multiset() =~= out0.to_multiset().insert(ev));
            assert(out@.to_multiset().add(rest@.to_multiset()) =~= out0.to_multiset().add(
                rest0.to_multiset(),
            ));
            out0.insert_ensures(p as int, ev);
            assert forall|i: int, j: int|
                0 <= i < j < out@.len() implies out@[i].spec_date() <= out@[j].spec_date() by {
                if j < p {
                    assert(out@[i] == out0[i] && out@[j] == out0[j]);
                } else if i < p && j == p {
                    assert(out@[i] == out0[i] && out@[j] == ev);
                } else if i < p && j > p {
                    assert(out@[i] == out0[i] && out@[j] == out0[j - 1]);
                } else if i == p {
                    assert(out@[i] == ev && out@[j] == out0[j - 1]);
                } else {
                    assert(out@[i] == out0[i - 1] && out@[j] == out0[j - 1]);
                }
            }
        }
    }
    proof {
        assert(rest@.to_multiset() =~= Multiset::<TimelineEvent>::empty());
        assert(out@.to_multiset() =~= out@.to_multiset().add(rest@.to_multiset()));
    }
    out
}

/// Merges each repository's commits (tagged with the repository's display
/// name) with the notes dated strictly after `since` into one timeline,
/// ascending by timestamp. The result holds exactly those events; the order
/// of events with equal timestamps is not specified.
pub fn merge_timeline(
    commits_by_repo: Vec<(String, Vec<CommitLog>)>,
    notes: Vec<ManuelEntry>,
    since: i64,
) -> (r: Vec<TimelineEvent>)
    ensures
        spec_sorted(r@),
        r@.to_multiset() == spec_merge_input(commits_by_repo@, notes@, since).to_multiset(),
{
    let ghost groups0 = commits_by_repo@;
    let ghost notes0 = notes@;
    let mut events: Vec<TimelineEvent> = Vec::new();
    let mut gs = commits_by_repo;
    proof {
        assert(events@ + spec_flatten(gs@) =~= spec_flatten(groups0));
    }
    while gs.len() > 0
        invariant
            events@ + spec_flatten(gs@) == spec_flatten(groups0),
        decreases gs@.len(),
    {
        let ghost gs0 = gs@;
        let (name, logs) = gs.remove(0);
        proof {
            assert(gs@ =~= gs0.drop_first());
            assert(gs0[0] == (name, logs));
        }
        let mut ls = logs;
        proof {
            assert(events@ + spec_tagged(name, ls@) + spec_flatten(gs@) =~= spec_flatten(groups0))
                by {
                assert(spec_flatten(gs0) == spec_tagged(gs0[0].0, gs0[0].1@) + spec_flatten(
                    gs0.drop_first(),
                ));
                assert((events@ + spec_tagged(name, ls@)) + spec_flatten(gs@) =~= events@ + (
                spec_tagged(name, ls@) + spec_flatten(gs@)));
            }
        }
        while ls.len() > 0
            invariant
                events@ + spec_tagged(name, ls@) + spec_flatten(gs@) == spec_flatten(groups0),
            decreases ls@.len(),
        {
            let ghost ls0 = ls@;
            let ghost events0 = events@;
            let c = ls.remove(0);
            let tag = name.clone();
            events.push(TimelineEvent::Commit(c, tag));
            proof {
                assert(ls@ =~= ls0.drop_first());
                assert(spec_tagged(name, ls0)[0] == TimelineEvent::Commit(ls0[0], name));
                assert(spec_tagged(name, ls0) =~= seq![TimelineEvent::Commit(ls0[0], name)]
                    + spec_tagged(name, ls@));
                assert(events@ + spec_tagged(name, ls@) + spec_flatten(gs@) =~= events0
                    + spec_tagged(name, ls0) + spec_flatten(gs@));
            }
        }
        proof {
            assert(spec_tagged(name, ls@) =~= Seq::<TimelineEvent>::empty());
            assert(events@ + spec_tagged(name, ls@) =~= events@);
        }
    }
    proof {
        assert(spec_flatten(gs@) =~= Seq::<TimelineEvent>::empty());
        assert(events@ =~= events@ + spec_flatten(gs@));
        assert(events@ == spec_flatten(groups0));
    }
    let mut ns = notes;
    proof {
        assert(events@ + spec_kept_notes(ns@, since) =~= spec_flatten(groups0) + spec_kept_notes(
            notes0,
            since,
        ));
    }
    while ns.len() > 0
        invariant
            events@ + spec_kept_notes(ns@, since) == spec_flatten(groups0) + spec_kept_notes(
                notes0,
                since,
            ),
        decreases ns@.len(),
    {
        let ghost ns0 = ns@;
        let ghost events0 = events@;
        let n = ns.remove(0);
        proof {
            assert(ns@ =~= ns0.drop_first());
        }
        if n.date > since {
            events.push(TimelineEvent::Note(n));
            proof {
                assert(spec_kept_notes(ns0, since) =~= seq![TimelineEvent::Note(ns0[0])]
                    + spec_kept_notes(ns@, since));
                assert(events@ + spec_kept_notes(ns@, since) =~= events0 + spec_kept_notes(
                    ns0,
                    since,
                ));
            }
        }
    }
    proof {
        assert(spec_kept_notes(ns@, since) =~= Seq::<TimelineEvent>::empty());
        assert(events@ =~= events@ + spec_kept_notes(ns@, since));
        assert(events@ == spec_merge_input(groups0, notes0, since));
    }
    sort_events(events)
}

/// The largest number of days the window may reach back; one day more
/// overflows the signed second count chrono can represent as a duration.
pub const MAX_DAYS_BACK: u64 = 106751991167;

/// How many days the report window reaches back: the explicit request when
/// given; otherwise one day, or three when the local day is Monday
/// (weekday 0), covering the weekend gap.
pub open spec fn spec_days_back(days_arg: Option<u64>, weekday: u8) -> u64 {
    match days_arg {
        Some(d) => d,
        None => if weekday == 0 {
            3
        } else {
            1
        },
    }
}

/// The window cutoff: local midnight today, minus the lookback window.
/// `weekday` counts days since Monday (0 = Monday, ..., 6 = Sunday);
/// `local_midnight` is today's local midnight in UTC seconds.
pub fn since_timestamp(days_arg: Option<u64>, weekday: u8, local_midnight: i64) -> (r: i64)
    requires
        days_arg matches Some(d) ==> d <= MAX_DAYS_BACK,
        -0x800_0000_0000 <= local_midnight <= 0x800_0000_0000,
    ensures
        r == local_midnight - 86400 * (spec_days_back(days_arg, weekday) as int),
{
    let days: u64 = match days_arg {
        Some(d) => d,
        None => if weekday == 0 {
            3
        } else {
            1
        },
    };
    local_midnight - 86400i64 * (days as i64)
}

/// Relies on `chrono::Local::now`, `NaiveDate::and_time`,
/// `TimeZone::from_local_datetime` (through `and_local_timezone`) and
/// `Weekday::num_days_from_monday`: today's local midnight as UTC seconds,
/// and the local weekday as days since Monday (0 = Monday, ..., 6 = Sunday).
/// When the civil midnight does not exist in the local zone (a daylight
/// shift), the current instant stands in for it. chrono documents its
/// representable dates as bounded by the years -262144 and 262142, so every
/// timestamp it returns lies well within 2^43 seconds of the epoch.
#[verifier::external_body]
fn local_midnight_and_weekday() -> (r: (i64, u8))
    ensures
        r.1 <= 6,
        -0x800_0000_0000 <= r.0 <= 0x800_0000_0000,
{
    let now = chrono::Local::now();
    let weekday = chrono::Datelike::weekday(&now).num_days_from_monday() as u8;
    let civil = now.date_naive().and_time(chrono::NaiveTime::MIN);
    let mid = match chrono::TimeZone::from_local_datetime(&chrono::Local, &civil).earliest() {
        Some(t) => t.timestamp(),
        None => now.timestamp(),
    };
    (mid, weekday)
}

/// `r` is the cutoff that some local midnight `mid` and weekday `wd` give:
/// that midnight shifted back by the whole days of the lookback window. The
/// midnight is bounded as every chrono timestamp is (see
/// [`local_midnight_and_weekday`]), so the bound carries to `r`.
pub open spec fn spec_window_cutoff(days_arg: Option<u64>, mid: int, wd: u8, r: i64) -> bool {
    &&& -0x800_0000_0000 <= mid <= 0x800_0000_0000
    &&& wd <= 6
    &&& r == mid - 86400 * (spec_days_back(days_arg, wd) as int)
}

/// The report window's cutoff read from the system clock: today's local
/// midnight minus the lookback window (see [`since_timestamp`]). Whatever
/// the clock said, the result is some bounded local midnight shifted back by
/// whole days: three on a Monday, one on other days, or exactly the days
/// asked for.
pub fn get_since_date(days_arg: Option<u64>) -> (r: i64)
    requires
        days_arg matches Some(d) ==> d <= MAX_DAYS_BACK,
    ensures
        exists|mid: int, wd: u8| #[trigger] spec_window_cutoff(days_arg, mid, wd, r),
{
    let (mid, wd) = local_midnight_and_weekday();
    let r = since_timestamp(days_arg, wd, mid);
    proof {
        assert(spec_window_cutoff(days_arg, mid as int, wd, r));
    }
    r
}

} // verus!
