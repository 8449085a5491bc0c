use oryx::engine::{Countdown, TickAction, SESSION_TICKS};
use oryx::filter::{filter_sessions, filter_sessions_per_label};
use oryx::session::{new_session, Session, SessionError, Stamp};
use oryx::stats::{aggregate, split_minutes, status, tier, Stats, Tier};
use oryx::store::{complete_session, initialize, record_session};

fn record(title: &str, labels: &[&str], date: &str) -> Session {
    Session {
        title: title.to_string(),
        labels: labels.iter().map(|l| l.to_string()).collect(),
        date: date.to_string(),
        time: "12:00".to_string(),
    }
}

fn titles(v: &[Session]) -> Vec<String> {
    v.iter().map(|s| s.title.clone()).collect()
}

fn labelled_history() -> Vec<Session> {
    vec![
        record("first", &["work"], "2024-01-01"),
        record("second", &["gym"], "2024-01-01"),
        record("third", &["work", "gym"], "2024-01-01"),
    ]
}

#[test]
fn empty_label_text_keeps_whole_history() {
    let h = labelled_history();
    assert_eq!(titles(&filter_sessions(&h, "")), vec!["first", "second", "third"]);
    assert!(filter_sessions(&vec![], "").is_empty());
}

#[test]
fn filter_by_one_label_skips_others() {
    let h = labelled_history();
    assert_eq!(titles(&filter_sessions(&h, "work")), vec!["first", "third"]);
    assert_eq!(titles(&filter_sessions(&h, " gym ")), vec!["second", "third"]);
}

#[test]
fn session_matching_two_labels_appears_once() {
    let h = labelled_history();
    assert_eq!(
        titles(&filter_sessions(&h, "work,gym")),
        vec!["first", "second", "third"]
    );
    assert_eq!(titles(&filter_sessions(&h, "work,work")), vec!["first", "third"]);
}

#[test]
fn label_match_is_exact() {
    let h = labelled_history();
    assert!(filter_sessions(&h, "Work").is_empty());
    assert!(filter_sessions(&h, "wor").is_empty());
    assert!(filter_sessions(&h, ",").is_empty());
}

#[test]
fn minutes_split_into_hours() {
    assert_eq!(split_minutes(0), (0, 0));
    assert_eq!(split_minutes(3), (1, 15));
    assert_eq!(split_minutes(5), (2, 5));
    assert_eq!(split_minutes(12), (5, 0));
    assert_eq!(split_minutes(13), (5, 25));
}

#[test]
fn aggregate_counts_today_and_all_time() {
    let mut h = Vec::new();
    for _ in 0..2 {
        h.push(record("old", &["work"], "2024-05-09"));
    }
    for _ in 0..5 {
        h.push(record("new", &["work"], "2024-05-10"));
    }
    let st = status(&h, "", "2024-05-10");
    assert_eq!(st.total_count, 7);
    assert_eq!(st.today_count, 5);
    assert_eq!((st.today_hours, st.today_minutes), (2, 5));
    assert_eq!((st.total_hours, st.total_minutes), (2, 55));
}

#[test]
fn aggregate_total_is_25_minutes_per_session() {
    for n in [0usize, 1, 2, 11, 12, 100] {
        let h: Vec<Session> = (0..n).map(|_| record("s", &[], "2024-05-10")).collect();
        let st = aggregate(&h, "2000-01-01");
        assert_eq!(st.total_hours * 60 + st.total_minutes, 25 * n);
        assert_eq!(st.today_count, 0);
    }
}

#[test]
fn empty_history_has_zero_stats() {
    let st = aggregate(&vec![], "2024-05-10");
    assert_eq!(
        st,
        Stats {
            total_count: 0,
            total_hours: 0,
            total_minutes: 0,
            today_count: 0,
            today_hours: 0,
            today_minutes: 0,
        }
    );
}

#[test]
fn status_counts_only_selected_sessions() {
    let h = labelled_history();
    let st = status(&h, "gym", "2024-01-01");
    assert_eq!(st.total_count, 2);
    assert_eq!(st.today_count, 2);
    assert_eq!((st.total_hours, st.total_minutes), (0, 50));
}

#[test]
fn tiers_follow_todays_count() {
    assert_eq!(tier(0), Tier::Low);
    assert_eq!(tier(2), Tier::Low);
    assert_eq!(tier(3), Tier::Medium);
    assert_eq!(tier(7), Tier::Medium);
    assert_eq!(tier(8), Tier::High);
    assert_eq!(tier(40), Tier::High);
}

#[test]
fn initialize_creates_empty_history_once() {
    let mut store: Option<String> = None;
    initialize(&mut store);
    assert_eq!(store.as_deref(), Some("[]"));
    initialize(&mut store);
    assert_eq!(store.as_deref(), Some("[]"));
    let mut kept = Some("[{\"title\":\"x\"}]".to_string());
    initialize(&mut kept);
    initialize(&mut kept);
    assert_eq!(kept.as_deref(), Some("[{\"title\":\"x\"}]"));
}

#[test]
fn recorded_session_goes_first() {
    let mut h = labelled_history();
    record_session(&mut h, record("newest", &[], "2024-01-02"));
    assert_eq!(titles(&h), vec!["newest", "first", "second", "third"]);
    let mut empty = Vec::new();
    record_session(&mut empty, record("only", &[], "2024-01-02"));
    assert_eq!(titles(&empty), vec!["only"]);
}

#[test]
fn countdown_finishes_on_last_tick() {
    let mut c = Countdown::new();
    assert_eq!(c.target(), SESSION_TICKS);
    assert_eq!(SESSION_TICKS, 1500);
    for _ in 0..1499 {
        assert_eq!(c.tick(), TickAction::Advance);
        assert!(!c.is_finished());
    }
    assert_eq!(c.tick(), TickAction::Finish);
    assert!(c.is_finished());
    assert_eq!(c.elapsed(), 1500);
}

#[test]
fn short_countdown() {
    let mut c = Countdown::with_ticks(2);
    assert_eq!(c.tick(), TickAction::Advance);
    assert_eq!(c.tick(), TickAction::Finish);
}

#[test]
fn completed_session_shows_in_status() {
    let mut store: Option<String> = None;
    initialize(&mut store);
    let mut history: Vec<Session> = Vec::new();
    let s = new_session("Write", "work, writing").unwrap();
    let today = s.date.clone();
    record_session(&mut history, s);
    assert_eq!(history[0].labels, vec!["work", "writing"]);
    let st = status(&history, "", &today);
    assert_eq!(st.total_count, 1);
    assert_eq!(st.today_count, 1);
}

#[test]
fn per_label_filter_repeats_sessions_matching_several_labels() {
    let h = labelled_history();
    assert_eq!(
        titles(&filter_sessions_per_label(&h, "work,gym")),
        vec!["first", "third", "second", "third"]
    );
    assert_eq!(titles(&filter_sessions_per_label(&h, "work")), vec!["first", "third"]);
    assert_eq!(
        titles(&filter_sessions_per_label(&h, "")),
        vec!["first", "second", "third"]
    );
    assert!(filter_sessions_per_label(&h, "Gym").is_empty());
}

#[test]
fn completing_a_session_puts_it_first() {
    let at = Stamp { year: 2024, month: 5, day: 10, hour: 8, minute: 30 };
    let mut history: Vec<Session> = Vec::new();
    assert_eq!(complete_session(&mut history, "Write", "work, writing", at), Ok(()));
    assert_eq!(history.len(), 1);
    assert_eq!(history[0].title, "Write");
    assert_eq!(history[0].labels, vec!["work", "writing"]);
    assert_eq!(history[0].date, "2024-05-10");
    assert_eq!(history[0].time, "08:30");
    let st = status(&history, "", "2024-05-10");
    assert_eq!((st.total_count, st.today_count), (1, 1));
    assert_eq!(complete_session(&mut history, "", "work", at), Err(SessionError::EmptyTitle));
    assert_eq!(complete_session(&mut history, "Read", "a,,b", at), Err(SessionError::InvalidLabels));
    assert_eq!(history.len(), 1);
    assert_eq!(complete_session(&mut history, "Read", "", at), Ok(()));
    assert_eq!(titles(&history), vec!["Read", "Write"]);
}
