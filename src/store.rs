use vstd::prelude::*;
use crate::labels::{labels_ok, parse_labels};
use crate::session::{date_text, generate_session, sessions, time_text, Session, SessionError, SessionView, Stamp};

verus! {

/// The stored text of a history with no sessions.
pub open spec fn empty_history_text() -> Seq<char> {
    seq!['[', ']']
}

/// What the backing store holds, `None` while it does not exist.
pub open spec fn stored(s: Option<String>) -> Option<Seq<char>> {
    match s {
        Some(t) => Some(t@),
        None => None,
    }
}

/// The store after initialising: an existing store as it was, a missing one
/// holding the empty history.
pub open spec fn initialized(s: Option<Seq<char>>) -> Option<Seq<char>> {
    match s {
        Some(t) => Some(t),
        None => Some(empty_history_text()),
    }
}

/// Creates the store with the empty history where it does not exist; an
/// existing store keeps its content.
pub fn initialize(store: &mut Option<String>)
    ensures
        stored(*final(store)) == initialized(stored(*old(store))),
        old(store).is_some() ==> stored(*final(store)) == stored(*old(store)),
{
    if store.is_none() {
        proof {
            reveal_strlit("[]");
        }
        *store = Some(String::from_str("[]"));
        assert(stored(*store) =~= initialized(stored(*old(store))));
    }
}

/// Initialising twice leaves the store as initialising once did, and never
/// changes a store that exists.
pub proof fn initialize_idempotent(s: Option<Seq<char>>)
    ensures
        initialized(initialized(s)) == initialized(s),
        s.is_some() ==> initialized(s) == s,
{
}

/// Puts the just-completed `session` in front of `history`, newest first.
pub fn record_session(history: &mut Vec<Session>, session: Session)
    ensures
        sessions(final(history)@) == seq![session@] + sessions(old(history)@),
{
    history.insert(0, session);
    assert(sessions(history@) =~= seq![session@] + sessions(old(history)@));
}

/// Records the session for `title` and `labels` completed at `at` in front
/// of `history`; a session that cannot be made leaves `history` as it was.
pub fn complete_session(history: &mut Vec<Session>, title: &str, labels: &str, at: Stamp) -> (r:
    Result<(), SessionError>)
    requires
        at.wf(),
    ensures
        r is Ok <==> title@.len() > 0 && labels_ok(labels@) && 0 <= at.year <= 9999,
        r matches Err(SessionError::EmptyTitle) <==> title@.len() == 0,
        r is Ok ==> sessions(final(history)@) == seq![
            SessionView {
                title: title@,
                labels: parse_labels(labels@),
                date: date_text(at.year as int, at.month as int, at.day as int),
                time: time_text(at.hour as int, at.minute as int),
            },
        ] + sessions(old(history)@),
        r is Err ==> final(history)@ == old(history)@,
{
    match generate_session(title, labels, at) {
        Ok(s) => {
            record_session(history, s);
            Ok(())
        },
        Err(e) => Err(e),
    }
}

} // verus!
