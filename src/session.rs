use vstd::prelude::*;
use crate::labels::{is_trimmed, is_white, labels_accepted, labels_ok, parse_labels, split_labels, texts};

verus! {

/// One completed focus session.
#[derive(Clone, Debug)]
pub struct Session {
    pub title: String,
    pub labels: Vec<String>,
    /// Local date of completion, `YYYY-MM-DD`.
    pub date: String,
    /// Local time of completion, `HH:MM`.
    pub time: String,
}

/// What a session holds, as plain text.
pub struct SessionView {
    pub title: Seq<char>,
    pub labels: Seq<Seq<char>>,
    pub date: Seq<char>,
    pub time: Seq<char>,
}

impl View for Session {
    type V = SessionView;

    open spec fn view(&self) -> SessionView {
        SessionView {
            title: self.title@,
            labels: texts(self.labels@),
            date: self.date@,
            time: self.time@,
        }
    }
}

/// The views of a sequence of sessions.
pub open spec fn sessions(h: Seq<Session>) -> Seq<SessionView> {
    h.map_values(|s: Session| s@)
}

/// A local calendar date and time of day, as the clock gives it.
#[derive(Clone, Copy, Debug, PartialEq, Eq, Structural)]
pub struct Stamp {
    pub year: i32,
    pub month: u8,
    pub day: u8,
    pub hour: u8,
    pub minute: u8,
}

impl Stamp {
    /// Every field within the range of a calendar date and a time of day.
    pub open spec fn wf(&self) -> bool {
        &&& 1 <= self.month <= 12
        &&& 1 <= self.day <= 31
        &&& self.hour < 24
        &&& self.minute < 60
    }
}

/// Why no session could be made.
#[derive(Clone, Copy, Debug, PartialEq, Eq, Structural)]
pub enum SessionError {
    /// The title is empty.
    EmptyTitle,
    /// The label text names a blank label.
    InvalidLabels,
    /// The year has no four-digit form.
    DateOutOfRange,
}

/// Relies on `time::OffsetDateTime::now_local` (and its `year`, `month`,
/// `day`, `hour`, `minute` getters) for the local date and time now.
#[verifier::external_body]
#[allow(deprecated)]
fn local_now() -> (r: Stamp)
    ensures
        r.wf(),
{
    let t = time::OffsetDateTime::now_local();
    Stamp { year: t.year(), month: t.month(), day: t.day(), hour: t.hour(), minute: t.minute() }
}

/// The decimal digit for `d`, for `d` from 0 to 9.
pub open spec fn digit_char(d: int) -> char {
    seq!['0', '1', '2', '3', '4', '5', '6', '7', '8', '9'][d]
}

/// A decimal digit.
pub open spec fn is_digit(c: char) -> bool {
    '0' <= c <= '9'
}

/// `v` written with two decimal digits, leading zero kept.
pub open spec fn two_digits(v: int) -> Seq<char> {
    seq![digit_char(v / 10), digit_char(v % 10)]
}

/// `v` written with four decimal digits, leading zeros kept.
pub open spec fn four_digits(v: int) -> Seq<char> {
    seq![digit_char(v / 1000), digit_char(v / 100 % 10), digit_char(v / 10 % 10), digit_char(v % 10)]
}

/// `YYYY-MM-DD`.
pub open spec fn date_text(y: int, m: int, d: int) -> Seq<char> {
    four_digits(y) + seq!['-'] + two_digits(m) + seq!['-'] + two_digits(d)
}

/// `HH:MM`.
pub open spec fn time_text(h: int, m: int) -> Seq<char> {
    two_digits(h) + seq![':'] + two_digits(m)
}

/// Text in the shape `YYYY-MM-DD`.
pub open spec fn is_date_text(s: Seq<char>) -> bool {
    &&& s.len() == 10
    &&& forall|i: int| 0 <= i < 10 && i != 4 && i != 7 ==> is_digit(#[trigger] s[i])
    &&& s[4] == '-'
    &&& s[7] == '-'
}

/// Text in the shape `HH:MM`.
pub open spec fn is_time_text(s: Seq<char>) -> bool {
    &&& s.len() == 5
    &&& forall|i: int| 0 <= i < 5 && i != 2 ==> is_digit(#[trigger] s[i])
    &&& s[2] == ':'
}

/// What every stored session satisfies.
pub open spec fn well_formed(s: SessionView) -> bool {
    &&& s.title.len() > 0
    &&& is_date_text(s.date)
    &&& is_time_text(s.time)
    &&& labels_well_formed(s.labels)
}

/// Labels as a session stores them: a single empty label where the label
/// text was empty, else each non-empty and trimmed.
pub open spec fn labels_well_formed(ls: Seq<Seq<char>>) -> bool {
    ls == seq![Seq::<char>::empty()] || forall|i: int|
        0 <= i < ls.len() ==> #[trigger] ls[i].len() > 0 && is_trimmed(ls[i])
}

fn digit_text(d: u32) -> (r: &'static str)
    requires
        d < 10,
    ensures
        r@ == seq![digit_char(d as int)],
{
    proof {
        reveal_strlit("0");
        reveal_strlit("1");
        reveal_strlit("2");
        reveal_strlit("3");
        reveal_strlit("4");
        reveal_strlit("5");
        reveal_strlit("6");
        reveal_strlit("7");
        reveal_strlit("8");
        reveal_strlit("9");
    }
    let r = if d == 0 {
        "0"
    } else if d == 1 {
        "1"
    } else if d == 2 {
        "2"
    } else if d == 3 {
        "3"
    } else if d == 4 {
        "4"
    } else if d == 5 {
        "5"
    } else if d == 6 {
        "6"
    } else if d == 7 {
        "7"
    } else if d == 8 {
        "8"
    } else {
        "9"
    };
    assert(r@ =~= seq![digit_char(d as int)]);
    r
}

fn push_two_digits(s: &mut String, v: u32)
    requires
        v < 100,
    ensures
        final(s)@ == old(s)@ + two_digits(v as int),
{
    s.append(digit_text(v / 10));
    s.append(digit_text(v % 10));
    assert(final(s)@ =~= old(s)@ + two_digits(v as int));
}

/// Writes a date as `YYYY-MM-DD`.
pub fn format_date(year: u32, month: u32, day: u32) -> (r: String)
    requires
        year <= 9999,
        month < 100,
        day < 100,
    ensures
        r@ == date_text(year as int, month as int, day as int),
{
    let mut s = String::new();
    s.append(digit_text(year / 1000));
    s.append(digit_text(year / 100 % 10));
    s.append(digit_text(year / 10 % 10));
    s.append(digit_text(year % 10));
    proof {
        reveal_strlit("-");
    }
    s.append("-");
    push_two_digits(&mut s, month);
    s.append("-");
    push_two_digits(&mut s, day);
    assert(s@ =~= date_text(year as int, month as int, day as int));
    s
}

/// Writes a time of day as `HH:MM`.
pub fn format_time(hour: u32, minute: u32) -> (r: String)
    requires
        hour < 100,
        minute < 100,
    ensures
        r@ == time_text(hour as int, minute as int),
{
    let mut s = String::new();
    push_two_digits(&mut s, hour);
    proof {
        reveal_strlit(":");
    }
    s.append(":");
    push_two_digits(&mut s, minute);
    assert(s@ =~= time_text(hour as int, minute as int));
    s
}


/// Builds the session for `title` and the comma-separated `labels`, completed
/// at `at`.
pub fn generate_session(title: &str, labels: &str, at: Stamp) -> (r: Result<Session, SessionError>)
    requires
        at.wf(),
    ensures
        r matches Err(SessionError::EmptyTitle) <==> title@.len() == 0,
        r matches Err(SessionError::InvalidLabels) <==> title@.len() > 0 && !labels_ok(labels@),
        r matches Err(SessionError::DateOutOfRange) <==> title@.len() > 0 && labels_ok(labels@)
            && !(0 <= at.year <= 9999),
        r matches Ok(s) ==> s@ == (SessionView {
            title: title@,
            labels: parse_labels(labels@),
            date: date_text(at.year as int, at.month as int, at.day as int),
            time: time_text(at.hour as int, at.minute as int),
        }),
{
    if title.unicode_len() == 0 {
        return Err(SessionError::EmptyTitle);
    }
    if !labels_accepted(labels) {
        return Err(SessionError::InvalidLabels);
    }
    let date = match date_of(at) {
        Some(d) => d,
        None => return Err(SessionError::DateOutOfRange),
    };
    let time = format_time(at.hour as u32, at.minute as u32);
    Ok(Session { title: String::from_str(title), labels: split_labels(labels), date, time })
}

/// Builds the session for `title` and `labels`, completed now by the local
/// clock.
pub fn new_session(title: &str, labels: &str) -> (r: Result<Session, SessionError>)
    ensures
        r matches Err(SessionError::EmptyTitle) <==> title@.len() == 0,
        r matches Err(SessionError::InvalidLabels) <==> title@.len() > 0 && !labels_ok(labels@),
        r matches Ok(s) ==> s@.title == title@ && s@.labels == parse_labels(labels@) && is_date_text(
            s@.date,
        ) && is_time_text(s@.time),
        r matches Ok(s) ==> exists|at: Stamp|
            #![trigger date_text(at.year as int, at.month as int, at.day as int)]
            at.wf() && 0 <= at.year <= 9999 && s@.date == date_text(
                at.year as int,
                at.month as int,
                at.day as int,
            ) && s@.time == time_text(at.hour as int, at.minute as int),
{
    let now = local_now();
    let r = generate_session(title, labels, now);
    proof {
        if r is Ok {
            let s = r->Ok_0;
            assert(is_date_text(s@.date)) by {
                let d = s@.date;
                assert(forall|i: int| 0 <= i < 10 && i != 4 && i != 7 ==> is_digit(#[trigger] d[i]))
                    by {
                    assert(forall|k: int| 0 <= k < 10 ==> is_digit(#[trigger] digit_char(k)));
                }
            }
            assert(is_time_text(s@.time)) by {
                let t = s@.time;
                assert(forall|i: int| 0 <= i < 5 && i != 2 ==> is_digit(#[trigger] t[i])) by {
                    assert(forall|k: int| 0 <= k < 10 ==> is_digit(#[trigger] digit_char(k)));
                }
            }
            assert(date_text(now.year as int, now.month as int, now.day as int) == s@.date);
        }
    }
    r
}

fn copy_texts(v: &Vec<String>) -> (r: Vec<String>)
    ensures
        texts(r@) == texts(v@),
{
    let mut out: Vec<String> = Vec::new();
    let mut i: usize = 0;
    while i < v.len()
        invariant
            i <= v@.len(),
            texts(out@) == texts(v@.subrange(0, i as int)),
        decreases v.len() - i,
    {
        let ghost before = out@;
        out.push(v[i].clone());
        assert(texts(out@) =~= texts(before).push(v@[i as int]@));
        assert(v@.subrange(0, i + 1) =~= v@.subrange(0, i as int).push(v@[i as int]));
        assert(texts(v@.subrange(0, i + 1)) =~= texts(v@.subrange(0, i as int)).push(
            v@[i as int]@,
        ));
        i = i + 1;
    }
    assert(v@.subrange(0, i as int) =~= v@);
    out
}

impl Session {
    /// A second session with the same contents.
    pub fn duplicate(&self) -> (r: Session)
        ensures
            r@ == self@,
    {
        Session {
            title: self.title.clone(),
            labels: copy_texts(&self.labels),
            date: self.date.clone(),
            time: self.time.clone(),
        }
    }
}

fn digits_at(s: &str, from: usize, to: usize) -> (r: bool)
    requires
        from <= to <= s@.len(),
    ensures
        r == forall|i: int| from <= i < to ==> is_digit(#[trigger] s@[i]),
{
    let mut i = from;
    while i < to
        invariant
            from <= i <= to <= s@.len(),
            forall|k: int| from <= k < i ==> is_digit(#[trigger] s@[k]),
        decreases to - i,
    {
        let c = s.get_char(i);
        if !('0' <= c && c <= '9') {
            return false;
        }
        i = i + 1;
    }
    true
}

fn text_is_trimmed(s: &String) -> (r: bool)
    ensures
        r == is_trimmed(s@),
{
    let t = s.as_str();
    let n = t.unicode_len();
    if n == 0 {
        return true;
    }
    !is_white(t.get_char(0)) && !is_white(t.get_char(n - 1))
}

/// Whether `s` has the shape of a stored session.
pub fn check_record(s: &Session) -> (r: bool)
    ensures
        r == well_formed(s@),
{
    let title = s.title.as_str();
    if title.unicode_len() == 0 {
        return false;
    }
    let date = s.date.as_str();
    if date.unicode_len() != 10 || date.get_char(4) != '-' || date.get_char(7) != '-' {
        return false;
    }
    if !(digits_at(date, 0, 4) && digits_at(date, 5, 7) && digits_at(date, 8, 10)) {
        return false;
    }
    let time = s.time.as_str();
    if time.unicode_len() != 5 || time.get_char(2) != ':' {
        return false;
    }
    if !(digits_at(time, 0, 2) && digits_at(time, 3, 5)) {
        return false;
    }
    if s.labels.len() == 1 && s.labels[0].as_str().unicode_len() == 0 {
        assert(s@.labels[0] =~= Seq::<char>::empty());
        assert(s@.labels =~= seq![Seq::<char>::empty()]);
        return true;
    }
    proof {
        if s@.labels == seq![Seq::<char>::empty()] {
            assert(s@.labels.len() == 1);
            assert(s.labels@[0]@ == s@.labels[0]);
        }
    }
    let mut i: usize = 0;
    while i < s.labels.len()
        invariant
            i <= s.labels@.len(),
            s@.labels != seq![Seq::<char>::empty()],
            forall|k: int| 0 <= k < i ==> #[trigger] s@.labels[k].len() > 0 && is_trimmed(s@.labels[k]),
        decreases s.labels.len() - i,
    {
        assert(s@.labels[i as int] == s.labels@[i as int]@);
        if s.labels[i].as_str().unicode_len() == 0 || !text_is_trimmed(&s.labels[i]) {
            return false;
        }
        i = i + 1;
    }
    true
}

/// Accepts a history only when every session in it is well formed; else
/// gives the position of the first that is not.
pub fn validate_history(history: &Vec<Session>) -> (r: Result<(), usize>)
    ensures
        r is Ok <==> forall|k: int| 0 <= k < history@.len() ==> well_formed(#[trigger] history@[k]@),
        r matches Err(i) ==> i < history@.len() && !well_formed(history@[i as int]@) && forall|k: int|
            0 <= k < i ==> well_formed(#[trigger] history@[k]@),
{
    let mut i: usize = 0;
    while i < history.len()
        invariant
            i <= history@.len(),
            forall|k: int| 0 <= k < i ==> well_formed(#[trigger] history@[k]@),
        decreases history.len() - i,
    {
        if !check_record(&history[i]) {
            return Err(i);
        }
        i = i + 1;
    }
    Ok(())
}

/// Whether a session may start with this title: it must not be empty.
pub fn title_accepted(title: &str) -> (r: bool)
    ensures
        r == (title@.len() > 0),
{
    title.unicode_len() > 0
}

/// Today's local date as `YYYY-MM-DD`; `None` where the year has no
/// four-digit form.
pub fn today_text() -> (r: Option<String>)
    ensures
        r matches Some(d) ==> is_date_text(d@),
        r matches Some(d) ==> exists|at: Stamp|
            #![trigger date_text(at.year as int, at.month as int, at.day as int)]
            at.wf() && 0 <= at.year <= 9999 && d@ == date_text(
                at.year as int,
                at.month as int,
                at.day as int,
            ),
{
    let now = local_now();
    let r = date_of(now);
    proof {
        if r is Some {
            let d = r->Some_0;
            assert(date_text(now.year as int, now.month as int, now.day as int) == d@);
            assert(is_date_text(d@)) by {
                assert(forall|k: int| 0 <= k < 10 ==> is_digit(#[trigger] digit_char(k)));
            }
        }
    }
    r
}

/// The date of `at` as `YYYY-MM-DD`; `None` where its year has no
/// four-digit form.
pub fn date_of(at: Stamp) -> (r: Option<String>)
    requires
        at.wf(),
    ensures
        r is Some <==> 0 <= at.year <= 9999,
        r matches Some(d) ==> d@ == date_text(at.year as int, at.month as int, at.day as int),
{
    if at.year < 0 || at.year > 9999 {
        return None;
    }
    Some(format_date(at.year as u32, at.month as u32, at.day as u32))
}

} // verus!
