use yestergit::db::ManuelEntry;
use yestergit::git_ops::CommitLog;
use yestergit::timeline::{
    get_since_date, merge_timeline, since_timestamp, sort_events, TimelineEvent, MAX_DAYS_BACK,
};

fn commit(date: i64, message: &str) -> CommitLog {
    CommitLog {
        message: message.to_string(),
        author: "Alice".to_string(),
        date,
        hash: "0123456".to_string(),
    }
}

#[test]
fn timeline_is_ordered_by_timestamp() {
    // Commits at 09:00 and 14:00, a note at 11:00, all within the window.
    let nine = 9 * 3600;
    let eleven = 11 * 3600;
    let fourteen = 14 * 3600;
    let groups = vec![("repo".to_string(), vec![commit(fourteen, "later"), commit(nine, "early")])];
    let notes = vec![ManuelEntry { message: "midday".to_string(), date: eleven }];

    let events = merge_timeline(groups, notes, 0);

    let dates: Vec<i64> = events.iter().map(|e| e.date()).collect();
    assert_eq!(dates, vec![nine, eleven, fourteen]);
    assert!(matches!(&events[0], TimelineEvent::Commit(c, r) if c.message == "early" && r == "repo"));
    assert!(matches!(&events[1], TimelineEvent::Note(n) if n.message == "midday"));
    assert!(matches!(&events[2], TimelineEvent::Commit(c, _) if c.message == "later"));
}

#[test]
fn merge_filters_notes_strictly_after_since() {
    let groups: Vec<(String, Vec<CommitLog>)> = Vec::new();
    let notes = vec![
        ManuelEntry { message: "at since".to_string(), date: 100 },
        ManuelEntry { message: "after".to_string(), date: 101 },
        ManuelEntry { message: "before".to_string(), date: 99 },
    ];

    let events = merge_timeline(groups, notes, 100);

    assert_eq!(events.len(), 1);
    assert!(matches!(&events[0], TimelineEvent::Note(n) if n.message == "after"));
}

#[test]
fn merge_keeps_commits_unfiltered() {
    // Commits arrive pre-filtered by the extractor; the merger must not
    // apply the since bound to them again.
    let groups = vec![("r".to_string(), vec![commit(50, "old but given")])];
    let events = merge_timeline(groups, Vec::new(), 100);
    assert_eq!(events.len(), 1);
}

#[test]
fn merge_tags_commits_with_their_repository() {
    let groups = vec![
        ("alpha".to_string(), vec![commit(10, "a")]),
        ("beta".to_string(), vec![commit(20, "b")]),
    ];
    let events = merge_timeline(groups, Vec::new(), 0);
    assert!(matches!(&events[0], TimelineEvent::Commit(c, r) if c.message == "a" && r == "alpha"));
    assert!(matches!(&events[1], TimelineEvent::Commit(c, r) if c.message == "b" && r == "beta"));
}

#[test]
fn sort_events_orders_ascending() {
    let events = vec![
        TimelineEvent::Commit(commit(300, "c"), "r".to_string()),
        TimelineEvent::Note(ManuelEntry { message: "n".to_string(), date: 100 }),
        TimelineEvent::Commit(commit(200, "b"), "r".to_string()),
    ];
    let sorted = sort_events(events);
    let dates: Vec<i64> = sorted.iter().map(|e| e.date()).collect();
    assert_eq!(dates, vec![100, 200, 300]);
}

#[test]
fn weekday_sensitive_default_window() {
    let midnight = 1_700_000_000;
    // Monday (weekday 0) without an explicit request: three days back.
    assert_eq!(since_timestamp(None, 0, midnight), midnight - 3 * 86400);
    // Any other weekday: one day back.
    for wd in 1u8..=6 {
        assert_eq!(since_timestamp(None, wd, midnight), midnight - 86400);
    }
    // An explicit request wins on any weekday.
    assert_eq!(since_timestamp(Some(5), 0, midnight), midnight - 5 * 86400);
    assert_eq!(since_timestamp(Some(5), 3, midnight), midnight - 5 * 86400);
    assert_eq!(since_timestamp(Some(0), 3, midnight), midnight);
}

#[test]
fn get_since_date_matches_local_midnight() {
    // With an explicit zero-day window the cutoff is today's local midnight.
    let r = get_since_date(Some(0));
    let now = chrono::Local::now();
    let expected = chrono::TimeZone::from_local_datetime(
        &chrono::Local,
        &now.date_naive().and_time(chrono::NaiveTime::MIN),
    )
    .earliest()
    .map(|t| t.timestamp());
    assert_eq!(Some(r), expected);
}

#[test]
fn get_since_date_uses_weekday_default() {
    let r = get_since_date(None);
    let now = chrono::Local::now();
    let midnight = chrono::TimeZone::from_local_datetime(
        &chrono::Local,
        &now.date_naive().and_time(chrono::NaiveTime::MIN),
    )
    .earliest()
    .unwrap()
    .timestamp();
    let days = if chrono::Datelike::weekday(&now) == chrono::Weekday::Mon { 3 } else { 1 };
    assert_eq!(r, midnight - days * 86400);
}

#[test]
fn max_days_back_is_accepted() {
    let midnight = 0;
    let r = since_timestamp(Some(MAX_DAYS_BACK), 0, midnight);
    assert_eq!(r, -(86400 * MAX_DAYS_BACK as i64));
}
