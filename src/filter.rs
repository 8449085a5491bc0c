use vstd::prelude::*;
use crate::labels::{parse_labels, split_labels, texts};
use crate::session::{sessions, Session, SessionView};

verus! {

/// Whether the session carries at least one of the `wanted` labels.
pub open spec fn has_any_label(s: SessionView, wanted: Seq<Seq<char>>) -> bool {
    exists|i: int, j: int|
        0 <= i < s.labels.len() && 0 <= j < wanted.len() && #[trigger] s.labels[i]
            == #[trigger] wanted[j]
}

/// The test that the comma-separated label text `raw` puts to a session.
pub open spec fn selects(raw: Seq<char>) -> spec_fn(SessionView) -> bool {
    |s: SessionView| has_any_label(s, parse_labels(raw))
}

/// The sessions of `h` that the comma-separated label text `raw` selects:
/// all of them for the empty text, else each that carries one of its labels,
/// once, in history order.
pub open spec fn select(h: Seq<SessionView>, raw: Seq<char>) -> Seq<SessionView> {
    if raw.len() == 0 {
        h
    } else {
        h.filter(selects(raw))
    }
}

fn carries_any(s: &Session, wanted: &Vec<String>) -> (r: bool)
    ensures
        r == has_any_label(s@, texts(wanted@)),
{
    let mut i: usize = 0;
    while i < s.labels.len()
        invariant
            i <= s.labels@.len(),
            forall|a: int, b: int|
                0 <= a < i && 0 <= b < wanted@.len() ==> #[trigger] s@.labels[a] != #[trigger] texts(
                    wanted@,
                )[b],
        decreases s.labels.len() - i,
    {
        let mut j: usize = 0;
        while j < wanted.len()
            invariant
                i < s.labels@.len(),
                j <= wanted@.len(),
                forall|a: int, b: int|
                    0 <= a < i && 0 <= b < wanted@.len() ==> #[trigger] s@.labels[a] != #[trigger] texts(
                        wanted@,
                    )[b],
                forall|b: int| 0 <= b < j ==> s@.labels[i as int] != #[trigger] texts(wanted@)[b],
            decreases wanted.len() - j,
        {
            if s.labels[i] == wanted[j] {
                assert(s@.labels[i as int] == texts(wanted@)[j as int]);
                return true;
            }
            j = j + 1;
        }
        i = i + 1;
    }
    false
}

/// The sessions of `history` that the comma-separated `labels` select:
/// the whole history when `labels` is empty; otherwise every session that
/// carries at least one of the trimmed labels, each once, in history order.
pub fn filter_sessions(history: &Vec<Session>, labels: &str) -> (r: Vec<Session>)
    ensures
        sessions(r@) == select(sessions(history@), labels@),
{
    let wanted = split_labels(labels);
    let all = labels.unicode_len() == 0;
    let mut out: Vec<Session> = Vec::new();
    let mut i: usize = 0;
    while i < history.len()
        invariant
            i <= history@.len(),
            texts(wanted@) == parse_labels(labels@),
            all == (labels@.len() == 0),
            all ==> sessions(out@) == sessions(history@.subrange(0, i as int)),
            !all ==> sessions(out@) == sessions(history@.subrange(0, i as int)).filter(selects(labels@)),
        decreases history.len() - i,
    {
        let ghost before = out@;
        let s = &history[i];
        let keep = if all {
            true
        } else {
            carries_any(s, &wanted)
        };
        proof {
            broadcast use Seq::lemma_filter_push;

            if !all {
                assert(keep == has_any_label(s@, parse_labels(labels@)));
                assert(keep == selects(labels@)(s@));
            }
            assert(history@.subrange(0, i + 1) =~= history@.subrange(0, i as int).push(*s));
            assert(sessions(history@.subrange(0, i + 1)) =~= sessions(
                history@.subrange(0, i as int),
            ).push(s@));
        }
        if keep {
            out.push(s.duplicate());
            assert(sessions(out@) =~= sessions(before).push(s@));
        }
        i = i + 1;
    }
    assert(history@.subrange(0, i as int) =~= history@);
    out
}

/// The test for a session that carries the label `l`.
pub open spec fn carries(l: Seq<char>) -> spec_fn(SessionView) -> bool {
    |s: SessionView| s.labels.contains(l)
}

/// For each of the `wanted` labels in turn, the sessions of `h` that carry
/// it, in history order; a session is repeated once per label it matches.
pub open spec fn per_label(h: Seq<SessionView>, wanted: Seq<Seq<char>>) -> Seq<SessionView>
    decreases wanted.len(),
{
    if wanted.len() == 0 {
        Seq::empty()
    } else {
        per_label(h, wanted.drop_last()) + h.filter(carries(wanted.last()))
    }
}

fn carries_label(s: &Session, l: &String) -> (r: bool)
    ensures
        r == s@.labels.contains(l@),
{
    let mut i: usize = 0;
    while i < s.labels.len()
        invariant
            i <= s.labels@.len(),
            forall|a: int| 0 <= a < i ==> #[trigger] s@.labels[a] != l@,
        decreases s.labels.len() - i,
    {
        if s.labels[i] == *l {
            assert(s@.labels[i as int] == l@);
            return true;
        }
        i = i + 1;
    }
    false
}

/// Like `filter_sessions`, but label by label: for each trimmed label of
/// `labels` in turn, every session that carries it, so that a session
/// matching several labels appears once for each. The empty text gives the
/// whole history.
pub fn filter_sessions_per_label(history: &Vec<Session>, labels: &str) -> (r: Vec<Session>)
    ensures
        labels@.len() == 0 ==> sessions(r@) == sessions(history@),
        labels@.len() > 0 ==> sessions(r@) == per_label(sessions(history@), parse_labels(labels@)),
{
    if labels.unicode_len() == 0 {
        let mut out: Vec<Session> = Vec::new();
        let mut i: usize = 0;
        while i < history.len()
            invariant
                i <= history@.len(),
                sessions(out@) == sessions(history@.subrange(0, i as int)),
            decreases history.len() - i,
        {
            let ghost before = out@;
            out.push(history[i].duplicate());
            assert(sessions(out@) =~= sessions(before).push(history@[i as int]@));
            assert(sessions(history@.subrange(0, i + 1)) =~= sessions(
                history@.subrange(0, i as int),
            ).push(history@[i as int]@));
            i = i + 1;
        }
        assert(history@.subrange(0, i as int) =~= history@);
        return out;
    }
    let wanted = split_labels(labels);
    let ghost h = sessions(history@);
    let ghost w = texts(wanted@);
    let mut out: Vec<Session> = Vec::new();
    let mut j: usize = 0;
    while j < wanted.len()
        invariant
            j <= wanted@.len(),
            h == sessions(history@),
            w == texts(wanted@),
            sessions(out@) == per_label(h, w.subrange(0, j as int)),
        decreases wanted.len() - j,
    {
        let ghost start = sessions(out@);
        let mut i: usize = 0;
        while i < history.len()
            invariant
                j < wanted@.len(),
                i <= history@.len(),
                h == sessions(history@),
                w == texts(wanted@),
                sessions(out@) == start + sessions(history@.subrange(0, i as int)).filter(
                    carries(w[j as int]),
                ),
            decreases history.len() - i,
        {
            let ghost before = out@;
            let s = &history[i];
            let keep = carries_label(s, &wanted[j]);
            proof {
                broadcast use Seq::lemma_filter_push;

                assert(keep == carries(w[j as int])(s@));
                assert(sessions(history@.subrange(0, i + 1)) =~= sessions(
                    history@.subrange(0, i as int),
                ).push(s@));
            }
            if keep {
                out.push(s.duplicate());
                assert(sessions(out@) =~= sessions(before).push(s@));
            }
            i = i + 1;
        }
        proof {
            assert(history@.subrange(0, i as int) =~= history@);
            assert(w.subrange(0, j + 1).drop_last() =~= w.subrange(0, j as int));
        }
        j = j + 1;
    }
    assert(w.subrange(0, j as int) =~= w);
    out
}

/// The empty label text selects the whole history, in order.
pub proof fn empty_selection_is_identity(h: Seq<SessionView>)
    ensures
        select(h, Seq::empty()) == h,
{
}

/// A non-empty label text selects a session exactly when the session is in
/// the history and carries one of the requested labels; and it selects each
/// history entry at most once.
pub proof fn selection_matches_labels(h: Seq<SessionView>, raw: Seq<char>, r: SessionView)
    requires
        raw.len() > 0,
    ensures
        select(h, raw).contains(r) <==> (h.contains(r) && has_any_label(r, parse_labels(raw))),
        select(h, raw).len() <= h.len(),
{
    broadcast use vstd::seq_lib::group_filter_ensures;

    lemma_filter_contains_iff(h, selects(raw), r);
}

proof fn lemma_filter_contains_iff(h: Seq<SessionView>, p: spec_fn(SessionView) -> bool, r: SessionView)
    ensures
        h.filter(p).contains(r) <==> (h.contains(r) && p(r)),
{
    broadcast use vstd::seq_lib::group_filter_ensures;

    if h.filter(p).contains(r) {
        let i = choose|i: int| 0 <= i < h.filter(p).len() && h.filter(p)[i] == r;
        assert(p(h.filter(p)[i]));
        Seq::lemma_filter_contains_rev(h, p, r);
    }
    if h.contains(r) && p(r) {
        let i = choose|i: int| 0 <= i < h.len() && h[i] == r;
        Seq::lemma_filter_contains(h, p, i);
    }
}

proof fn lemma_concat_contains(a: Seq<SessionView>, b: Seq<SessionView>, r: SessionView)
    ensures
        (a + b).contains(r) <==> (a.contains(r) || b.contains(r)),
{
    if (a + b).contains(r) {
        let i = choose|i: int| 0 <= i < (a + b).len() && (a + b)[i] == r;
        if i < a.len() {
            assert(a[i] == r);
        } else {
            assert(b[i - a.len()] == r);
        }
    }
    if a.contains(r) {
        let i = choose|i: int| 0 <= i < a.len() && a[i] == r;
        assert((a + b)[i] == r);
    }
    if b.contains(r) {
        let i = choose|i: int| 0 <= i < b.len() && b[i] == r;
        assert((a + b)[a.len() + i] == r);
    }
}

proof fn lemma_per_label_contains(h: Seq<SessionView>, w: Seq<Seq<char>>, r: SessionView)
    ensures
        per_label(h, w).contains(r) <==> (h.contains(r) && has_any_label(r, w)),
    decreases w.len(),
{
    if w.len() == 0 {
        assert(!has_any_label(r, w));
    } else {
        let prev = w.drop_last();
        lemma_per_label_contains(h, prev, r);
        lemma_concat_contains(per_label(h, prev), h.filter(carries(w.last())), r);
        lemma_filter_contains_iff(h, carries(w.last()), r);
        if has_any_label(r, w) {
            let (i, j) = choose|i: int, j: int|
                0 <= i < r.labels.len() && 0 <= j < w.len() && #[trigger] r.labels[i]
                    == #[trigger] w[j];
            if j < w.len() - 1 {
                assert(prev[j] == w[j]);
                assert(has_any_label(r, prev));
            } else {
                assert(r.labels.contains(w.last()));
            }
        }
        if has_any_label(r, prev) {
            let (i, j) = choose|i: int, j: int|
                0 <= i < r.labels.len() && 0 <= j < prev.len() && #[trigger] r.labels[i]
                    == #[trigger] prev[j];
            assert(w[j] == prev[j]);
        }
        if r.labels.contains(w.last()) {
            let i = choose|i: int| 0 <= i < r.labels.len() && r.labels[i] == w.last();
            assert(r.labels[i] == w[w.len() - 1]);
        }
    }
}

/// Label by label, a non-empty label text also yields exactly the sessions
/// of the history that carry one of its labels, repeats aside.
pub proof fn per_label_matches_labels(h: Seq<SessionView>, raw: Seq<char>, r: SessionView)
    requires
        raw.len() > 0,
    ensures
        per_label(h, parse_labels(raw)).contains(r) <==> (h.contains(r) && has_any_label(
            r,
            parse_labels(raw),
        )),
        per_label(h, parse_labels(raw)).contains(r) <==> select(h, raw).contains(r),
{
    lemma_per_label_contains(h, parse_labels(raw), r);
    selection_matches_labels(h, raw, r);
}

} // verus!
