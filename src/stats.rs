use vstd::prelude::*;
use vstd::arithmetic::div_mod::lemma_fundamental_div_mod_converse;
use crate::filter::{filter_sessions, select};
use crate::session::{sessions, Session, SessionView};

verus! {

/// Minutes that one session lasts.
pub const SESSION_MINUTES: usize = 25;

/// Session counts and their durations, over all sessions and over today's.
/// A duration is whole hours plus the minutes left over (under 60).
#[derive(Clone, Copy, Debug, PartialEq, Eq, Structural)]
pub struct Stats {
    pub total_count: usize,
    pub total_hours: usize,
    pub total_minutes: usize,
    pub today_count: usize,
    pub today_hours: usize,
    pub today_minutes: usize,
}

/// How busy a day was, by its number of sessions.
#[derive(Clone, Copy, Debug, PartialEq, Eq, Structural)]
pub enum Tier {
    /// Two sessions or fewer.
    Low,
    /// Three to seven sessions.
    Medium,
    /// Eight sessions or more.
    High,
}

/// The test for a session completed on the date `today`.
pub open spec fn on_day(today: Seq<char>) -> spec_fn(SessionView) -> bool {
    |s: SessionView| s.date == today
}

/// The number of sessions of `h` completed on the date `today`.
pub open spec fn day_count(h: Seq<SessionView>, today: Seq<char>) -> nat {
    h.filter(on_day(today)).len()
}

/// `st` gives the counts and durations of the sessions `h`, with `today`
/// as the current date.
pub open spec fn describes(st: Stats, h: Seq<SessionView>, today: Seq<char>) -> bool {
    let n = h.len() as int;
    let t = day_count(h, today) as int;
    &&& st.total_count == n
    &&& st.total_hours == n * 25 / 60
    &&& st.total_minutes == n * 25 % 60
    &&& st.today_count == t
    &&& st.today_hours == t * 25 / 60
    &&& st.today_minutes == t * 25 % 60
}

/// The tier of a day with `count` sessions: up to two low, up to seven
/// medium, more high.
pub open spec fn tier_of(count: int) -> Tier {
    if count <= 2 {
        Tier::Low
    } else if count <= 7 {
        Tier::Medium
    } else {
        Tier::High
    }
}

/// The length of `count` sessions as whole hours and the minutes left over.
pub fn split_minutes(count: usize) -> (r: (usize, usize))
    ensures
        r.0 == count * 25 / 60,
        r.1 == count * 25 % 60,
        r.0 * 60 + r.1 == count * 25,
{
    let q = count / 12;
    let rest = count % 12;
    let part = rest * SESSION_MINUTES;
    let hours = q * 5 + part / 60;
    let minutes = part % 60;
    proof {
        let x = count as int;
        let qi = q as int;
        let pi = part as int;
        let ri = rest as int;
        assert(x == 12 * qi + ri);
        assert(x * 25 == (5 * qi + pi / 60) * 60 + pi % 60) by (nonlinear_arith)
            requires
                x == 12 * qi + ri,
                pi == ri * 25,
                pi == (pi / 60) * 60 + pi % 60,
        ;
        lemma_fundamental_div_mod_converse(x * 25, 60, 5 * qi + pi / 60, pi % 60);
    }
    (hours, minutes)
}

/// The presentation tier of a day with `count` sessions.
pub fn tier(count: usize) -> (r: Tier)
    ensures
        r == tier_of(count as int),
{
    if count <= 2 {
        Tier::Low
    } else if count <= 7 {
        Tier::Medium
    } else {
        Tier::High
    }
}

/// Counts and durations of `records`, with `today` (`YYYY-MM-DD`) as the
/// current date: a session is today's when its date is exactly `today`.
pub fn aggregate(records: &Vec<Session>, today: &str) -> (r: Stats)
    ensures
        describes(r, sessions(records@), today@),
        r.total_hours * 60 + r.total_minutes == 25 * records@.len(),
        r.today_hours * 60 + r.today_minutes == 25 * r.today_count,
{
    let ghost h = sessions(records@);
    let mut today_count: usize = 0;
    let mut i: usize = 0;
    while i < records.len()
        invariant
            i <= records@.len(),
            h == sessions(records@),
            today_count == day_count(sessions(records@.subrange(0, i as int)), today@),
        decreases records.len() - i,
    {
        proof {
            broadcast use Seq::lemma_filter_push;

            assert(records@.subrange(0, i + 1) =~= records@.subrange(0, i as int).push(
                records@[i as int],
            ));
            assert(sessions(records@.subrange(0, i + 1)) =~= sessions(
                records@.subrange(0, i as int),
            ).push(records@[i as int]@));
            assert(on_day(today@)(records@[i as int]@) == (records@[i as int]@.date == today@));
            Seq::lemma_filter_len(sessions(records@.subrange(0, i as int)), on_day(today@));
        }
        if same_text(records[i].date.as_str(), today) {
            today_count = today_count + 1;
        }
        i = i + 1;
    }
    assert(records@.subrange(0, i as int) =~= records@);
    let (total_hours, total_minutes) = split_minutes(records.len());
    let (today_hours, today_minutes) = split_minutes(today_count);
    Stats {
        total_count: records.len(),
        total_hours,
        total_minutes,
        today_count,
        today_hours,
        today_minutes,
    }
}

fn same_text(a: &str, b: &str) -> (r: bool)
    ensures
        r == (a@ == b@),
{
    let n = a.unicode_len();
    if n != b.unicode_len() {
        return false;
    }
    let mut i: usize = 0;
    while i < n
        invariant
            n == a@.len() == b@.len(),
            i <= n,
            forall|k: int| 0 <= k < i ==> a@[k] == b@[k],
        decreases n - i,
    {
        if a.get_char(i) != b.get_char(i) {
            return false;
        }
        i = i + 1;
    }
    assert(a@ =~= b@);
    true
}

/// Counts and durations of the sessions of `history` that the
/// comma-separated `labels` select (all of them for the empty text), with
/// `today` as the current date.
pub fn status(history: &Vec<Session>, labels: &str, today: &str) -> (r: Stats)
    ensures
        describes(r, select(sessions(history@), labels@), today@),
{
    let shown = filter_sessions(history, labels);
    aggregate(&shown, today)
}

/// A history holding one session: the status over all labels, with the
/// session's own date as today, counts one session in all and one today.
pub proof fn single_session_counts_today(v: SessionView, st: Stats)
    requires
        describes(st, select(seq![v], Seq::empty()), v.date),
    ensures
        st.total_count == 1,
        st.today_count == 1,
{
    broadcast use Seq::lemma_filter_push;

    assert(seq![v] =~= Seq::<SessionView>::empty().push(v));
    assert(Seq::<SessionView>::empty().filter(on_day(v.date)) =~= Seq::<SessionView>::empty()) by {
        reveal(Seq::filter);
    }
    assert(on_day(v.date)(v));
}

} // verus!
