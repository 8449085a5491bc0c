use vstd::prelude::*;

verus! {

/// Whether a character has the Unicode `White_Space` property: tab to
/// carriage return, space, next line, no-break space, ogham space mark, the
/// spaces from en quad to hair space, line and paragraph separator, narrow
/// no-break space, medium mathematical space and ideographic space.
pub open spec fn white_space(c: char) -> bool {
    let u = c as u32;
    ||| 0x9 <= u <= 0xD
    ||| u == 0x20
    ||| u == 0x85
    ||| u == 0xA0
    ||| u == 0x1680
    ||| 0x2000 <= u <= 0x200A
    ||| u == 0x2028
    ||| u == 0x2029
    ||| u == 0x202F
    ||| u == 0x205F
    ||| u == 0x3000
}

/// Whether `c` is white space, as `char::is_whitespace` decides it.
pub fn is_white(c: char) -> (r: bool)
    ensures
        r == white_space(c),
{
    let u = c as u32;
    (0x9 <= u && u <= 0xD) || u == 0x20 || u == 0x85 || u == 0xA0 || u == 0x1680 || (0x2000 <= u
        && u <= 0x200A) || u == 0x2028 || u == 0x2029 || u == 0x202F || u == 0x205F || u == 0x3000
}

/// `s` without its leading white space.
pub open spec fn trim_start(s: Seq<char>) -> Seq<char>
    decreases s.len(),
{
    if s.len() > 0 && white_space(s[0]) {
        trim_start(s.drop_first())
    } else {
        s
    }
}

/// `s` without its trailing white space.
pub open spec fn trim_end(s: Seq<char>) -> Seq<char>
    decreases s.len(),
{
    if s.len() > 0 && white_space(s.last()) {
        trim_end(s.drop_last())
    } else {
        s
    }
}

/// `s` without white space at either end.
pub open spec fn trim(s: Seq<char>) -> Seq<char> {
    trim_end(trim_start(s))
}

/// A text that neither starts nor ends with white space.
pub open spec fn is_trimmed(s: Seq<char>) -> bool {
    s.len() == 0 || (!white_space(s[0]) && !white_space(s.last()))
}

/// The pieces of `s` between its commas, in order; a text without commas is
/// one piece, the empty text included.
pub open spec fn split_commas(s: Seq<char>) -> Seq<Seq<char>>
    decreases s.len(),
{
    if s.len() == 0 {
        seq![Seq::<char>::empty()]
    } else {
        let prev = split_commas(s.drop_last());
        if s.last() == ',' {
            prev.push(Seq::<char>::empty())
        } else {
            prev.update(prev.len() - 1, prev.last().push(s.last()))
        }
    }
}

/// The labels that a comma-separated text names: each piece, trimmed.
pub open spec fn parse_labels(s: Seq<char>) -> Seq<Seq<char>> {
    split_commas(s).map_values(|p: Seq<char>| trim(p))
}

/// A label text that names only non-empty labels, or is itself empty.
pub open spec fn labels_ok(raw: Seq<char>) -> bool {
    raw.len() == 0 || forall|i: int|
        0 <= i < parse_labels(raw).len() ==> #[trigger] parse_labels(raw)[i].len() > 0
}

/// The character views of a sequence of strings.
pub open spec fn texts(v: Seq<String>) -> Seq<Seq<char>> {
    v.map_values(|x: String| x@)
}

/// Extending a text by one character extends its last piece, or starts a new
/// one at a comma.
proof fn lemma_split_step(s: Seq<char>, i: int)
    requires
        0 <= i < s.len(),
    ensures
        s.subrange(0, i + 1).drop_last() == s.subrange(0, i),
        s.subrange(0, i + 1).last() == s[i],
        split_commas(s.subrange(0, i + 1)) == ({
            let prev = split_commas(s.subrange(0, i));
            if s[i] == ',' {
                prev.push(Seq::<char>::empty())
            } else {
                prev.update(prev.len() - 1, prev.last().push(s[i]))
            }
        }),
{
    assert(s.subrange(0, i + 1).drop_last() =~= s.subrange(0, i));
}

/// Removes the white space at both ends of `s`.
pub fn trim_text(s: &str) -> (r: String)
    ensures
        r@ == trim(s@),
        is_trimmed(r@),
{
    let n = s.unicode_len();
    let mut i: usize = 0;
    assert(s@.subrange(0, n as int) =~= s@);
    while i < n && is_white(s.get_char(i))
        invariant
            n == s@.len(),
            i <= n,
            trim_start(s@) == trim_start(s@.subrange(i as int, n as int)),
        decreases n - i,
    {
        assert(s@.subrange(i as int, n as int).drop_first() =~= s@.subrange(i + 1, n as int));
        i = i + 1;
    }
    assert(trim_start(s@) == s@.subrange(i as int, n as int));
    let mut j: usize = n;
    while j > i && is_white(s.get_char(j - 1))
        invariant
            n == s@.len(),
            i <= j <= n,
            i < n ==> !white_space(s@[i as int]),
            trim(s@) == trim_end(s@.subrange(i as int, j as int)),
        decreases j,
    {
        assert(s@.subrange(i as int, j as int).drop_last() =~= s@.subrange(i as int, j - 1));
        j = j - 1;
    }
    assert(trim(s@) == s@.subrange(i as int, j as int));
    let piece = s.substring_char(i, j);
    String::from_str(piece)
}

/// Splits `raw` at each comma and trims every piece, keeping their order
/// and any repeats.
pub fn split_labels(raw: &str) -> (r: Vec<String>)
    ensures
        texts(r@) == parse_labels(raw@),
{
    let n = raw.unicode_len();
    let mut out: Vec<String> = Vec::new();
    let mut start: usize = 0;
    let mut i: usize = 0;
    let ghost mut done: Seq<Seq<char>> = Seq::empty();
    proof {
        assert(raw@.subrange(0, 0) =~= Seq::<char>::empty());
    }
    while i < n
        invariant
            n == raw@.len(),
            start <= i <= n,
            split_commas(raw@.subrange(0, i as int)) == done.push(
                raw@.subrange(start as int, i as int),
            ),
            texts(out@) == done.map_values(|p: Seq<char>| trim(p)),
        decreases n - i,
    {
        proof {
            lemma_split_step(raw@, i as int);
        }
        if raw.get_char(i) == ',' {
            let piece = trim_text(raw.substring_char(start, i));
            let ghost before = out@;
            out.push(piece);
            proof {
                let prev = done;
                done = done.push(raw@.subrange(start as int, i as int));
                assert(texts(out@) =~= texts(before).push(piece@));
                assert(done.map_values(|p: Seq<char>| trim(p)) =~= prev.map_values(
                    |p: Seq<char>| trim(p),
                ).push(trim(raw@.subrange(start as int, i as int))));
                assert(raw@.subrange(i + 1, i + 1) =~= Seq::<char>::empty());
            }
            start = i + 1;
        } else {
            proof {
                assert(raw@.subrange(start as int, i + 1) =~= raw@.subrange(
                    start as int,
                    i as int,
                ).push(raw@[i as int]));
            }
        }
        i = i + 1;
    }
    let last = trim_text(raw.substring_char(start, n));
    let ghost before = out@;
    out.push(last);
    proof {
        let all = done.push(raw@.subrange(start as int, n as int));
        assert(texts(out@) =~= texts(before).push(last@));
        assert(all.map_values(|p: Seq<char>| trim(p)) =~= done.map_values(|p: Seq<char>| trim(p)).push(
            trim(raw@.subrange(start as int, n as int)),
        ));
        assert(raw@.subrange(0, n as int) =~= raw@);
        assert(texts(out@) =~= all.map_values(|p: Seq<char>| trim(p)));
    }
    out
}

/// Whether a session may carry the labels that `raw` names: none of its
/// pieces may be blank, unless the whole text is empty.
pub fn labels_accepted(raw: &str) -> (r: bool)
    ensures
        r == labels_ok(raw@),
{
    if raw.unicode_len() == 0 {
        return true;
    }
    let v = split_labels(raw);
    let mut i: usize = 0;
    while i < v.len()
        invariant
            i <= v@.len(),
            raw@.len() > 0,
            texts(v@) == parse_labels(raw@),
            forall|k: int| 0 <= k < i ==> #[trigger] parse_labels(raw@)[k].len() > 0,
        decreases v.len() - i,
    {
        assert(texts(v@)[i as int] == v@[i as int]@);
        if v[i].as_str().unicode_len() == 0 {
            assert(parse_labels(raw@)[i as int].len() == 0);
            assert(parse_labels(raw@).len() == v@.len());

            return false;
        }
        i = i + 1;
    }
    assert(parse_labels(raw@).len() == v@.len());
    true
}

} // verus!
