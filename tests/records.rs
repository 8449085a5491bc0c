use oryx::labels::{is_white, labels_accepted, split_labels, trim_text};
use oryx::session::{
    check_record, date_of, format_date, format_time, generate_session, new_session, title_accepted,
    validate_history, Session, SessionError, Stamp,
};

fn stamp(year: i32, month: u8, day: u8, hour: u8, minute: u8) -> Stamp {
    Stamp { year, month, day, hour, minute }
}

fn record(title: &str, labels: &[&str], date: &str, time: &str) -> Session {
    Session {
        title: title.to_string(),
        labels: labels.iter().map(|l| l.to_string()).collect(),
        date: date.to_string(),
        time: time.to_string(),
    }
}

#[test]
fn split_trims_each_label() {
    assert_eq!(split_labels("work, writing"), vec!["work", "writing"]);
    assert_eq!(split_labels(" a ,b,, c "), vec!["a", "b", "", "c"]);
    assert_eq!(split_labels("x,x"), vec!["x", "x"]);
}

#[test]
fn split_of_empty_text_is_one_empty_label() {
    assert_eq!(split_labels(""), vec![""]);
}

#[test]
fn trim_removes_white_space_at_both_ends() {
    assert_eq!(trim_text("  deep work\t\n"), "deep work");
    assert_eq!(trim_text("   "), "");
    assert_eq!(trim_text("a b"), "a b");
}

#[test]
fn dates_and_times_are_zero_padded() {
    assert_eq!(format_date(2024, 3, 5), "2024-03-05");
    assert_eq!(format_date(7, 12, 31), "0007-12-31");
    assert_eq!(format_time(9, 7), "09:07");
    assert_eq!(format_time(23, 59), "23:59");
}

#[test]
fn generated_session_holds_title_labels_and_stamp() {
    let s = generate_session("Write", "work, writing", stamp(2024, 3, 5, 9, 7)).unwrap();
    assert_eq!(s.title, "Write");
    assert_eq!(s.labels, vec!["work", "writing"]);
    assert_eq!(s.date, "2024-03-05");
    assert_eq!(s.time, "09:07");
    assert!(check_record(&s));
}

#[test]
fn empty_title_is_refused() {
    assert_eq!(
        generate_session("", "work", stamp(2024, 3, 5, 9, 7)).err(),
        Some(SessionError::EmptyTitle)
    );
    assert_eq!(new_session("", "work").err(), Some(SessionError::EmptyTitle));
    assert!(!title_accepted(""));
    assert!(title_accepted("Write"));
}

#[test]
fn year_without_four_digits_is_refused() {
    assert_eq!(
        generate_session("Write", "", stamp(10000, 1, 1, 0, 0)).err(),
        Some(SessionError::DateOutOfRange)
    );
    assert_eq!(
        generate_session("Write", "", stamp(-1, 1, 1, 0, 0)).err(),
        Some(SessionError::DateOutOfRange)
    );
}

#[test]
fn new_session_uses_the_local_clock() {
    let s = new_session("Write", "work, writing").unwrap();
    assert_eq!(s.labels, vec!["work", "writing"]);
    assert_eq!(s.date.len(), 10);
    assert_eq!(s.time.len(), 5);
    assert!(check_record(&s));
}

#[test]
fn duplicate_keeps_every_field() {
    let s = record("Read", &["books", "calm"], "2024-01-02", "10:00");
    let d = s.duplicate();
    assert_eq!(d.title, s.title);
    assert_eq!(d.labels, s.labels);
    assert_eq!(d.date, s.date);
    assert_eq!(d.time, s.time);
}

#[test]
fn malformed_records_are_found() {
    assert!(check_record(&record("t", &[], "2024-01-02", "10:00")));
    assert!(!check_record(&record("", &[], "2024-01-02", "10:00")));
    assert!(!check_record(&record("t", &[], "2024/01/02", "10:00")));
    assert!(!check_record(&record("t", &[], "2024-1-02", "10:00")));
    assert!(!check_record(&record("t", &[], "2024-01-02", "10-00")));
    assert!(!check_record(&record("t", &[" work"], "2024-01-02", "10:00")));
    assert!(check_record(&record("t", &[""], "2024-01-02", "10:00")));
    assert!(!check_record(&record("t", &["a", ""], "2024-01-02", "10:00")));
    assert!(!check_record(&record("t", &["", ""], "2024-01-02", "10:00")));
    assert!(check_record(&record("t", &["a", "b c"], "2024-01-02", "10:00")));
}

#[test]
fn white_space_is_the_unicode_set() {
    for c in ['\t', '\n', '\u{0B}', '\u{0C}', '\r', ' ', '\u{85}', '\u{A0}', '\u{1680}', '\u{2000}',
        '\u{200A}', '\u{2028}', '\u{2029}', '\u{202F}', '\u{205F}', '\u{3000}']
    {
        assert!(is_white(c));
        assert_eq!(is_white(c), c.is_whitespace());
    }
    for c in ['a', '0', ',', '\u{200B}', '\u{FEFF}', '\u{180E}', '\u{8}']
    {
        assert!(!is_white(c));
        assert_eq!(is_white(c), c.is_whitespace());
    }
    for u in 0u32..0x11_0000 {
        if let Some(c) = char::from_u32(u) {
            assert_eq!(is_white(c), c.is_whitespace());
        }
    }
}

#[test]
fn blank_labels_are_refused() {
    assert!(labels_accepted(""));
    assert!(labels_accepted("work, writing"));
    assert!(!labels_accepted("a,,b"));
    assert!(!labels_accepted("work,"));
    assert!(!labels_accepted("  "));
    assert_eq!(
        generate_session("Write", "a, ,b", stamp(2024, 3, 5, 9, 7)).err(),
        Some(SessionError::InvalidLabels)
    );
    assert_eq!(new_session("Write", ",").err(), Some(SessionError::InvalidLabels));
    let s = generate_session("Write", "", stamp(2024, 3, 5, 9, 7)).unwrap();
    assert_eq!(s.labels, vec![""]);
    assert!(check_record(&s));
}

#[test]
fn date_of_stamp() {
    assert_eq!(date_of(stamp(2024, 3, 5, 9, 7)).as_deref(), Some("2024-03-05"));
    assert_eq!(date_of(stamp(0, 1, 1, 0, 0)).as_deref(), Some("0000-01-01"));
    assert_eq!(date_of(stamp(10000, 1, 1, 0, 0)), None);
    assert_eq!(date_of(stamp(-5, 1, 1, 0, 0)), None);
}

#[test]
fn validation_gives_first_bad_position() {
    let good = record("t", &["a"], "2024-01-02", "10:00");
    let bad = record("t", &["a"], "2024-01-02", "1000");
    assert_eq!(validate_history(&vec![]), Ok(()));
    assert_eq!(validate_history(&vec![good.duplicate(), good.duplicate()]), Ok(()));
    assert_eq!(
        validate_history(&vec![good.duplicate(), bad.duplicate(), bad]),
        Err(1)
    );
}
