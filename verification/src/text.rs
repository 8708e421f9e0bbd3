//! Character-level text utilities: splitting, joining, searching and
//! number formatting, each with a specification over `Seq<char>`.
use vstd::prelude::*;
use vstd::string::StringExecFns;

verus! {

/// Appends one character to a string (std `String::push`).
#[verifier::external_body]
pub(crate) fn push_char(s: &mut String, c: char)
    ensures
        final(s)@ == old(s)@.push(c),
{
    s.push(c);
}

/// The views of a sequence of strings.
pub open spec fn views(v: Seq<String>) -> Seq<Seq<char>> {
    v.map_values(|x: String| x@)
}

/// The view of an optional string.
pub open spec fn opt_text(s: Option<String>) -> Option<Seq<char>> {
    match s {
        Some(t) => Some(t@),
        None => None,
    }
}

/// The view of an optional string slice.
pub open spec fn opt_str(s: Option<&str>) -> Option<Seq<char>> {
    match s {
        Some(t) => Some(t@),
        None => None,
    }
}

/// The characters of a string slice, in order.
pub fn chars_of(s: &str) -> (v: Vec<char>)
    ensures
        v@ == s@,
{
    let mut v: Vec<char> = Vec::new();
    for c in it: s.chars()
        invariant
            v@ == it.seq().take(it.index() as int),
    {
        v.push(c);
    }
    v
}

/// The string made of the characters `v[from..to]`.
pub fn string_of_range(v: &Vec<char>, from: usize, to: usize) -> (s: String)
    requires
        from <= to <= v@.len(),
    ensures
        s@ == v@.subrange(from as int, to as int),
{
    let mut s = String::new();
    let mut i = from;
    while i < to
        invariant
            from <= i <= to <= v@.len(),
            s@ == v@.subrange(from as int, i as int),
        decreases to - i,
    {
        push_char(&mut s, v[i]);
        proof {
            assert(v@.subrange(from as int, i + 1) == v@.subrange(from as int, i as int).push(v@[i as int]));
        }
        i += 1;
    }
    s
}

/// The string made of all the characters of `v`.
pub fn string_of(v: &Vec<char>) -> (s: String)
    ensures
        s@ == v@,
{
    let s = string_of_range(v, 0, v.len());
    proof {
        assert(v@.subrange(0, v@.len() as int) == v@);
    }
    s
}

/// Whether two texts are equal.
pub fn str_eq(a: &str, b: &str) -> (r: bool)
    ensures
        r == (a@ == b@),
{
    let x = a.to_string();
    let y = b.to_string();
    x == y
}

/// The concatenation of two strings.
pub fn concat(a: &str, b: &str) -> (r: String)
    ensures
        r@ == a@ + b@,
{
    let mut r = a.to_string();
    r.append(b);
    r
}

/// The concatenation of three strings.
pub fn concat3(a: &str, b: &str, c: &str) -> (r: String)
    ensures
        r@ == a@ + b@ + c@,
{
    let mut r = a.to_string();
    r.append(b);
    r.append(c);
    r
}

// ---------------------------------------------------------------------------
// Splitting and joining
// ---------------------------------------------------------------------------

/// The pieces of `s` between the characters on which `p` holds, empty
/// pieces kept: always at least one piece.
pub open spec fn split_when(s: Seq<char>, p: spec_fn(char) -> bool) -> Seq<Seq<char>>
    decreases s.len(),
{
    if s.len() == 0 {
        seq![Seq::<char>::empty()]
    } else {
        let r = split_when(s.drop_last(), p);
        if p(s.last()) {
            r.push(Seq::<char>::empty())
        } else {
            r.update(r.len() - 1, r.last().push(s.last()))
        }
    }
}

/// The pieces of `s` between occurrences of `sep`, as `str::split(sep)`
/// yields them: always at least one piece, empty pieces kept.
pub open spec fn split_by(s: Seq<char>, sep: char) -> Seq<Seq<char>> {
    split_when(s, is_char(sep))
}

/// The predicate "is the character `sep`".
pub open spec fn is_char(sep: char) -> spec_fn(char) -> bool {
    |c: char| c == sep
}

/// The predicate "is a whitespace character".
pub open spec fn is_ws_pred() -> spec_fn(char) -> bool {
    |c: char| is_ws(c)
}

/// `split_when` never yields an empty list of pieces.
pub proof fn lemma_split_when_nonempty(s: Seq<char>, p: spec_fn(char) -> bool)
    ensures
        split_when(s, p).len() >= 1,
    decreases s.len(),
{
    if s.len() > 0 {
        lemma_split_when_nonempty(s.drop_last(), p);
    }
}

/// Splitting a text that holds no separator gives the text itself.
pub proof fn lemma_split_when_free(s: Seq<char>, p: spec_fn(char) -> bool)
    requires
        forall|i: int| 0 <= i < s.len() ==> !p(#[trigger] s[i]),
    ensures
        split_when(s, p) == seq![s],
    decreases s.len(),
{
    if s.len() > 0 {
        lemma_split_when_free(s.drop_last(), p);
        assert(split_when(s, p) =~= seq![s.drop_last().push(s.last())]);
        assert(s.drop_last().push(s.last()) =~= s);
    } else {
        assert(s =~= Seq::<char>::empty());
    }
}

/// Splitting `x + y` splits each, the last piece of `x` joining the first of `y`.
pub proof fn lemma_split_when_concat(x: Seq<char>, y: Seq<char>, p: spec_fn(char) -> bool)
    ensures
        split_when(x + y, p) == split_when(x, p).drop_last() + seq![split_when(x, p).last() + split_when(y, p)[0]]
            + split_when(y, p).drop_first(),
    decreases y.len(),
{
    lemma_split_when_nonempty(x, p);
    if y.len() == 0 {
        assert(x + y =~= x);
        let r = split_when(x, p);
        assert(r.last() + Seq::<char>::empty() =~= r.last());
        assert(r =~= r.drop_last() + seq![r.last() + Seq::<char>::empty()] + seq![Seq::<char>::empty()].drop_first());
    } else {
        lemma_split_when_concat(x, y.drop_last(), p);
        lemma_split_when_nonempty(y.drop_last(), p);
        assert((x + y).drop_last() =~= x + y.drop_last());
        assert((x + y).last() == y.last());
        let rx = split_when(x, p);
        let ry = split_when(y.drop_last(), p);
        if p(y.last()) {
            assert(split_when(x + y, p) =~= rx.drop_last() + seq![rx.last() + split_when(y, p)[0]] + split_when(y, p).drop_first());
        } else {
            if ry.len() == 1 {
                assert(split_when(y, p)[0] == ry[0].push(y.last()));
                assert(rx.last() + ry[0].push(y.last()) =~= (rx.last() + ry[0]).push(y.last()));
            } else {
                assert(split_when(y, p)[0] == ry[0]);
            }
            assert(split_when(x + y, p) =~= rx.drop_last() + seq![rx.last() + split_when(y, p)[0]] + split_when(y, p).drop_first());
        }
    }
}

/// Splitting a single separator gives two empty pieces.
pub proof fn lemma_split_when_sep(c: char, p: spec_fn(char) -> bool)
    requires
        p(c),
    ensures
        split_when(seq![c], p) == seq![Seq::<char>::empty(), Seq::<char>::empty()],
{
    assert(seq![c].drop_last() =~= Seq::<char>::empty());
    assert(split_when(seq![c].drop_last(), p) == seq![Seq::<char>::empty()]);
    assert(seq![c].last() == c);
    assert(split_when(seq![c], p) =~= seq![Seq::<char>::empty()].push(Seq::<char>::empty()));
}

/// Splitting `x`, a separator, `y` (neither holding a separator) gives `x` and `y`.
pub proof fn lemma_split_when_two(x: Seq<char>, c: char, y: Seq<char>, p: spec_fn(char) -> bool)
    requires
        p(c),
        forall|i: int| 0 <= i < x.len() ==> !p(#[trigger] x[i]),
        forall|i: int| 0 <= i < y.len() ==> !p(#[trigger] y[i]),
    ensures
        split_when(x + seq![c] + y, p) == seq![x, y],
{
    lemma_split_when_free(x, p);
    lemma_split_when_free(y, p);
    lemma_split_when_sep(c, p);
    lemma_split_when_concat(x, seq![c], p);
    assert(split_when(x + seq![c], p) =~= seq![x, Seq::<char>::empty()]) by {
        assert(x + Seq::<char>::empty() =~= x);
    }
    lemma_split_when_concat(x + seq![c], y, p);
    assert(Seq::<char>::empty() + y =~= y);
    assert(split_when(x + seq![c] + y, p) =~= seq![x, y]);
}

/// Splitting `x c1 y c2 z` (none of `x`, `y`, `z` holding a separator) gives `x`, `y`, `z`.
pub proof fn lemma_split_when_three(
    x: Seq<char>,
    c1: char,
    y: Seq<char>,
    c2: char,
    z: Seq<char>,
    p: spec_fn(char) -> bool,
)
    requires
        p(c1),
        p(c2),
        forall|i: int| 0 <= i < x.len() ==> !p(#[trigger] x[i]),
        forall|i: int| 0 <= i < y.len() ==> !p(#[trigger] y[i]),
        forall|i: int| 0 <= i < z.len() ==> !p(#[trigger] z[i]),
    ensures
        split_when(x + seq![c1] + y + seq![c2] + z, p) == seq![x, y, z],
{
    lemma_split_when_two(x, c1, y, p);
    lemma_split_when_two(Seq::<char>::empty(), c2, z, p);
    assert(Seq::<char>::empty() + seq![c2] + z =~= seq![c2] + z);
    lemma_split_when_concat(x + seq![c1] + y, seq![c2] + z, p);
    assert(x + seq![c1] + y + seq![c2] + z =~= (x + seq![c1] + y) + (seq![c2] + z));
    assert(y + Seq::<char>::empty() =~= y);
    assert(split_when(x + seq![c1] + y + seq![c2] + z, p) =~= seq![x, y, z]);
}

/// A list of non-empty texts is kept whole by the non-empty filter.
pub proof fn lemma_filter_nonempty_all(s: Seq<Seq<char>>)
    requires
        forall|i: int| 0 <= i < s.len() ==> (#[trigger] s[i]).len() > 0,
    ensures
        s.filter(nonempty_pred()) == s,
    decreases s.len(),
{
    reveal(Seq::filter);
    if s.len() > 0 {
        lemma_filter_nonempty_all(s.drop_last());
        assert(s.drop_last().push(s.last()) =~= s);
    } else {
        assert(s.filter(nonempty_pred()) =~= s);
    }
}

/// The first `c` in `a + b` is the first of `b` when `a` holds none and `b` starts with it.
pub proof fn lemma_first_index_concat(a: Seq<char>, b: Seq<char>, c: char)
    requires
        !a.contains(c),
        b.len() > 0,
        b[0] == c,
    ensures
        first_index(a + b, c) == Some(a.len() as int),
    decreases a.len(),
{
    if a.len() > 0 {
        assert((a + b).drop_first() =~= a.drop_first() + b);
        if a.drop_first().contains(c) {
            let k = choose|k: int| 0 <= k < a.drop_first().len() && a.drop_first()[k] == c;
            assert(a[k + 1] == c);
        }
        lemma_first_index_concat(a.drop_first(), b, c);
        assert((a + b)[0] == a[0]);
    } else {
        assert(a + b =~= b);
    }
}

/// `split_by` never yields an empty list of pieces.
pub proof fn lemma_split_by_nonempty(s: Seq<char>, sep: char)
    ensures
        split_by(s, sep).len() >= 1,
{
    lemma_split_when_nonempty(s, is_char(sep));
}

/// The pieces joined with `sep` between consecutive ones, as `[..].join(sep)`.
pub open spec fn join_with(parts: Seq<Seq<char>>, sep: Seq<char>) -> Seq<char>
    decreases parts.len(),
{
    if parts.len() == 0 {
        Seq::<char>::empty()
    } else if parts.len() == 1 {
        parts[0]
    } else {
        join_with(parts.drop_last(), sep) + sep + parts.last()
    }
}

/// No piece produced by `split_by` contains the separator.
pub proof fn lemma_split_by_pieces_free(s: Seq<char>, sep: char)
    ensures
        forall|i: int| 0 <= i < split_by(s, sep).len() ==> !(#[trigger] split_by(s, sep)[i]).contains(sep),
    decreases s.len(),
{
    if s.len() > 0 {
        lemma_split_by_nonempty(s.drop_last(), sep);
        lemma_split_by_pieces_free(s.drop_last(), sep);
        let r = split_by(s.drop_last(), sep);
        if s.last() != sep {
            assert forall|i: int| 0 <= i < split_by(s, sep).len() implies !(#[trigger] split_by(s, sep)[i]).contains(sep) by {
                if i == r.len() - 1 {
                    let p = r.last().push(s.last());
                    assert(!r[i].contains(sep));
                    if p.contains(sep) {
                        let k = choose|k: int| 0 <= k < p.len() && p[k] == sep;
                        assert(r[i][k] == sep);
                    }
                }
            }
        } else {
            assert forall|i: int| 0 <= i < split_by(s, sep).len() implies !(#[trigger] split_by(s, sep)[i]).contains(sep) by {
                if i < r.len() {
                    assert(split_by(s, sep)[i] == r[i]);
                }
            }
        }
    }
}

/// Joining the pieces of a split with the separator gives back the text that was split.
pub proof fn lemma_join_split(s: Seq<char>, sep: char)
    ensures
        join_with(split_by(s, sep), seq![sep]) == s,
    decreases s.len(),
{
    if s.len() > 0 {
        let prev = s.drop_last();
        lemma_join_split(prev, sep);
        lemma_split_by_nonempty(prev, sep);
        let r = split_by(prev, sep);
        if s.last() == sep {
            let r2 = r.push(Seq::<char>::empty());
            assert(r2.drop_last() == r);
            assert(join_with(r2, seq![sep]) == join_with(r, seq![sep]) + seq![sep] + Seq::<char>::empty());
            assert(s == prev + seq![sep] + Seq::<char>::empty());
        } else {
            let r2 = r.update(r.len() - 1, r.last().push(s.last()));
            if r.len() == 1 {
                assert(join_with(r2, seq![sep]) == r2[0]);
                assert(s == prev.push(s.last()));
            } else {
                assert(r2.drop_last() == r.drop_last());
                assert(join_with(r2, seq![sep]) == join_with(r.drop_last(), seq![sep]) + seq![sep] + r.last().push(s.last()));
                assert(join_with(r, seq![sep]) == join_with(r.drop_last(), seq![sep]) + seq![sep] + r.last());
                assert(s == prev.push(s.last()));
            }
        }
    }
}

/// Splits `s` at every occurrence of `sep` (as `str::split` with a `char` pattern).
pub fn split_char(s: &str, sep: char) -> (parts: Vec<String>)
    ensures
        views(parts@) == split_by(s@, sep),
{
    let cs = chars_of(s);
    let mut parts: Vec<String> = Vec::new();
    let mut cur = String::new();
    let mut i: usize = 0;
    while i < cs.len()
        invariant
            0 <= i <= cs@.len(),
            cs@ == s@,
            views(parts@).push(cur@) == split_by(cs@.take(i as int), sep),
        decreases cs@.len() - i,
    {
        let c = cs[i];
        proof {
            assert(cs@.take(i + 1).drop_last() == cs@.take(i as int));
            assert(cs@.take(i + 1).last() == c);
        }
        if c == sep {
            parts.push(cur);
            cur = String::new();
            proof {
                assert(views(parts@).push(cur@) == views(parts@.drop_last()).push(parts@.last()@).push(Seq::<char>::empty()));
            }
        } else {
            let ghost before = views(parts@).push(cur@);
            push_char(&mut cur, c);
            proof {
                assert(views(parts@).push(cur@) == before.update(before.len() - 1, before.last().push(c)));
            }
        }
        i += 1;
    }
    parts.push(cur);
    proof {
        assert(cs@.take(cs@.len() as int) == cs@);
        assert(views(parts@) == views(parts@.drop_last()).push(parts@.last()@));
    }
    parts
}

/// Joins the strings with `sep` between consecutive ones (as `[..].join(sep)`).
pub fn join(parts: &Vec<String>, sep: &str) -> (r: String)
    ensures
        r@ == join_with(views(parts@), sep@),
{
    let mut r = String::new();
    let mut i: usize = 0;
    while i < parts.len()
        invariant
            0 <= i <= parts@.len(),
            r@ == join_with(views(parts@).take(i as int), sep@),
        decreases parts@.len() - i,
    {
        let ghost pre = views(parts@).take(i + 1);
        proof {
            assert(pre.drop_last() == views(parts@).take(i as int));
            assert(pre.last() == parts@[i as int]@);
        }
        if i > 0 {
            r.append(sep);
        }
        r.append(parts[i].as_str());
        i += 1;
    }
    proof {
        assert(views(parts@).take(parts@.len() as int) == views(parts@));
    }
    r
}

/// A URL with query parameters: `base?p1&p2...`, or `base` alone when there are none.
pub open spec fn with_query_text(base: Seq<char>, params: Seq<Seq<char>>) -> Seq<char> {
    if params.len() == 0 {
        base
    } else {
        base + "?"@ + join_with(params, "&"@)
    }
}

/// Joining one more piece adds the separator and that piece at the end.
pub proof fn lemma_join_push(ps: Seq<Seq<char>>, x: Seq<char>, sep: Seq<char>)
    requires
        ps.len() > 0,
    ensures
        join_with(ps.push(x), sep) == join_with(ps, sep) + sep + x,
{
    assert(ps.push(x).drop_last() =~= ps);
}

/// One more query parameter is appended at the end of the URL, after `?`
/// when it is the first parameter and after `&` otherwise.
pub proof fn lemma_with_query_push(base: Seq<char>, ps: Seq<Seq<char>>, x: Seq<char>)
    ensures
        with_query_text(base, ps.push(x)) == with_query_text(base, ps) + (if ps.len() == 0 {
            "?"@
        } else {
            "&"@
        }) + x,
{
    if ps.len() == 0 {
        assert(ps.push(x) =~= seq![x]);
        assert(join_with(seq![x], "&"@) == x);
    } else {
        lemma_join_push(ps, x, "&"@);
    }
}

/// Appends query parameters to a URL.
pub fn with_query(base: &str, params: &Vec<String>) -> (u: String)
    ensures
        u@ == with_query_text(base@, views(params@)),
{
    if params.len() == 0 {
        base.to_string()
    } else {
        let q = join(params, "&");
        concat3(base, "?", q.as_str())
    }
}

/// The consecutive pieces of at most `n` characters that `s` is cut into
/// (as `chunks(n)` on its characters).
pub open spec fn chunks(s: Seq<char>, n: nat) -> Seq<Seq<char>>
    decreases s.len(),
{
    if s.len() == 0 || n == 0 {
        Seq::empty()
    } else if s.len() <= n {
        seq![s]
    } else {
        seq![s.take(n as int)] + chunks(s.skip(n as int), n)
    }
}

/// The pieces of a text concatenated.
pub open spec fn flatten(parts: Seq<Seq<char>>) -> Seq<char>
    decreases parts.len(),
{
    if parts.len() == 0 {
        Seq::empty()
    } else {
        parts[0] + flatten(parts.drop_first())
    }
}

/// Cutting a text into chunks loses and adds nothing, and every chunk holds
/// between one and `n` characters.
pub proof fn lemma_chunks(s: Seq<char>, n: nat)
    requires
        n > 0,
    ensures
        flatten(chunks(s, n)) == s,
        forall|i: int| 0 <= i < chunks(s, n).len() ==> 0 < (#[trigger] chunks(s, n)[i]).len() <= n,
    decreases s.len(),
{
    if s.len() == 0 {
        assert(flatten(chunks(s, n)) =~= s);
    } else if s.len() <= n {
        assert(chunks(s, n).drop_first() =~= Seq::<Seq<char>>::empty());
        assert(flatten(chunks(s, n).drop_first()) == Seq::<char>::empty());
        assert(chunks(s, n)[0] == s);
        assert(flatten(chunks(s, n)) =~= s + Seq::<char>::empty());
    } else {
        lemma_chunks(s.skip(n as int), n);
        let c = chunks(s, n);
        assert(c.drop_first() =~= chunks(s.skip(n as int), n));
        assert(s =~= s.take(n as int) + s.skip(n as int));
        assert forall|i: int| 0 <= i < c.len() implies 0 < (#[trigger] c[i]).len() <= n by {
            if i > 0 {
                assert(c[i] == chunks(s.skip(n as int), n)[i - 1]);
            }
        }
    }
}

/// Every character of every chunk is a character of the text: what holds of
/// all the text's characters holds of the chunks' characters.
pub proof fn lemma_chunks_chars(s: Seq<char>, n: nat, p: spec_fn(char) -> bool)
    requires
        n > 0,
        forall|k: int| 0 <= k < s.len() ==> p(#[trigger] s[k]),
    ensures
        forall|i: int, j: int|
            0 <= i < chunks(s, n).len() && 0 <= j < chunks(s, n)[i].len() ==> p(#[trigger] chunks(s, n)[i][j]),
    decreases s.len(),
{
    if s.len() > n {
        let rest = s.skip(n as int);
        assert forall|k: int| 0 <= k < rest.len() implies p(#[trigger] rest[k]) by {
            assert(rest[k] == s[k + n]);
        }
        lemma_chunks_chars(rest, n, p);
        let c = chunks(s, n);
        assert forall|i: int, j: int| 0 <= i < c.len() && 0 <= j < c[i].len() implies p(#[trigger] c[i][j]) by {
            if i == 0 {
                assert(c[0] == s.take(n as int));
                assert(c[0][j] == s[j]);
            } else {
                assert(c[i] == chunks(rest, n)[i - 1]);
            }
        }
    } else if s.len() > 0 {
        let c = chunks(s, n);
        assert forall|i: int, j: int| 0 <= i < c.len() && 0 <= j < c[i].len() implies p(#[trigger] c[i][j]) by {
            assert(c[i] == s);
        }
    }
}

/// Cuts a text into pieces of at most `n` characters.
pub fn chunk_text(s: &str, n: usize) -> (parts: Vec<String>)
    requires
        n > 0,
    ensures
        views(parts@) == chunks(s@, n as nat),
{
    let cs = chars_of(s);
    let mut parts: Vec<String> = Vec::new();
    let mut pos: usize = 0;
    proof {
        assert(cs@.skip(0) =~= cs@);
    }
    while pos < cs.len()
        invariant
            pos <= cs@.len(),
            cs@ == s@,
            n > 0,
            views(parts@) + chunks(cs@.skip(pos as int), n as nat) == chunks(s@, n as nat),
        decreases cs@.len() - pos,
    {
        let rest = cs.len() - pos;
        let end = if rest <= n { cs.len() } else { pos + n };
        let piece = string_of_range(&cs, pos, end);
        let ghost before = views(parts@);
        parts.push(piece);
        proof {
            let r = cs@.skip(pos as int);
            assert(views(parts@) =~= before.push(piece@));
            if rest <= n {
                assert(piece@ =~= r);
                assert(cs@.skip(end as int) =~= Seq::<char>::empty());
                assert(chunks(r, n as nat) == seq![r]);
                assert(before.push(piece@) + chunks(cs@.skip(end as int), n as nat) =~= before + chunks(r, n as nat));
            } else {
                assert(piece@ =~= r.take(n as int));
                assert(r.skip(n as int) =~= cs@.skip(end as int));
                assert(before.push(piece@) + chunks(cs@.skip(end as int), n as nat) =~= before + chunks(r, n as nat));
            }
        }
        pos = end;
    }
    proof {
        assert(cs@.skip(pos as int) =~= Seq::<char>::empty());
        assert(views(parts@) + Seq::<Seq<char>>::empty() =~= views(parts@));
    }
    parts
}

// ---------------------------------------------------------------------------
// Whitespace
// ---------------------------------------------------------------------------

/// The Unicode `White_Space` characters (those for which `char::is_whitespace` holds).
pub open spec fn is_ws(c: char) -> bool {
    ||| ('\u{9}' <= c && c <= '\u{d}')
    ||| c == ' '
    ||| c == '\u{85}'
    ||| c == '\u{a0}'
    ||| c == '\u{1680}'
    ||| ('\u{2000}' <= c && c <= '\u{200a}')
    ||| c == '\u{2028}'
    ||| c == '\u{2029}'
    ||| c == '\u{202f}'
    ||| c == '\u{205f}'
    ||| c == '\u{3000}'
}

/// Whether `c` is a Unicode whitespace character.
pub fn is_whitespace(c: char) -> (r: bool)
    ensures
        r == is_ws(c),
{
    ('\u{9}' <= c && c <= '\u{d}') || c == ' ' || c == '\u{85}' || c == '\u{a0}' || c == '\u{1680}'
        || ('\u{2000}' <= c && c <= '\u{200a}') || c == '\u{2028}' || c == '\u{2029}'
        || c == '\u{202f}' || c == '\u{205f}' || c == '\u{3000}'
}

/// Whether the text consists of whitespace only (`s.trim().is_empty()`).
pub open spec fn is_blank_spec(s: Seq<char>) -> bool {
    forall|i: int| 0 <= i < s.len() ==> is_ws(#[trigger] s[i])
}

/// Whether the text is empty once trimmed.
pub fn is_blank(s: &str) -> (r: bool)
    ensures
        r == is_blank_spec(s@),
{
    let cs = chars_of(s);
    let mut i: usize = 0;
    while i < cs.len()
        invariant
            0 <= i <= cs@.len(),
            cs@ == s@,
            forall|j: int| 0 <= j < i ==> is_ws(#[trigger] cs@[j]),
        decreases cs@.len() - i,
    {
        if !is_whitespace(cs[i]) {
            return false;
        }
        i += 1;
    }
    true
}

/// The pieces of `s` between whitespace characters, empty pieces kept.
pub open spec fn split_ws_all(s: Seq<char>) -> Seq<Seq<char>> {
    split_when(s, is_ws_pred())
}

/// The words of `s` as `str::split_whitespace` yields them: the non-empty
/// pieces between whitespace characters.
pub open spec fn words(s: Seq<char>) -> Seq<Seq<char>> {
    split_ws_all(s).filter(nonempty_pred())
}

/// The predicate "is a non-empty text".
pub open spec fn nonempty_pred() -> spec_fn(Seq<char>) -> bool {
    |w: Seq<char>| w.len() > 0
}

proof fn lemma_filter_push_nonempty(p: Seq<Seq<char>>, w: Seq<char>)
    ensures
        w.len() > 0 ==> p.push(w).filter(nonempty_pred()) == p.filter(nonempty_pred()).push(w),
        w.len() == 0 ==> p.push(w).filter(nonempty_pred()) == p.filter(nonempty_pred()),
{
    reveal(Seq::filter);
    assert(p.push(w).drop_last() == p);
}

/// Splits text into whitespace-separated words (as `str::split_whitespace`).
pub fn split_whitespace(s: &str) -> (ws: Vec<String>)
    ensures
        views(ws@) == words(s@),
{
    let cs = chars_of(s);
    let mut ws: Vec<String> = Vec::new();
    let mut cur = String::new();
    let ghost mut done: Seq<Seq<char>> = Seq::empty();
    let mut i: usize = 0;
    while i < cs.len()
        invariant
            0 <= i <= cs@.len(),
            cs@ == s@,
            split_ws_all(cs@.take(i as int)) == done.push(cur@),
            views(ws@) == done.filter(nonempty_pred()),
        decreases cs@.len() - i,
    {
        let c = cs[i];
        proof {
            assert(cs@.take(i + 1).drop_last() == cs@.take(i as int));
            assert(cs@.take(i + 1).last() == c);
        }
        if is_whitespace(c) {
            proof {
                lemma_filter_push_nonempty(done, cur@);
                done = done.push(cur@);
            }
            if !cur.as_str().is_empty() {
                let ghost before = ws@;
                ws.push(cur);
                proof {
                    assert(views(ws@) == views(before).push(ws@.last()@));
                }
            }
            cur = String::new();
        } else {
            push_char(&mut cur, c);
        }
        i += 1;
    }
    proof {
        lemma_filter_push_nonempty(done, cur@);
        assert(cs@.take(cs@.len() as int) == cs@);
    }
    if !cur.as_str().is_empty() {
        let ghost before = ws@;
        ws.push(cur);
        proof {
            assert(views(ws@) == views(before).push(ws@.last()@));
        }
    }
    ws
}

// ---------------------------------------------------------------------------
// Searching
// ---------------------------------------------------------------------------

/// Whether `pat` occurs in `s` starting at index `i`.
pub open spec fn occurs_at(s: Seq<char>, pat: Seq<char>, i: int) -> bool {
    0 <= i && i + pat.len() <= s.len() && s.subrange(i, i + pat.len()) == pat
}

/// Whether `pat` occurs somewhere in `s` (as `str::contains`).
pub open spec fn has_substring(s: Seq<char>, pat: Seq<char>) -> bool {
    exists|i: int| occurs_at(s, pat, i)
}

/// Whether `pat` occurs in `s`.
pub fn contains_str(s: &str, pat: &str) -> (r: bool)
    ensures
        r == has_substring(s@, pat@),
{
    let cs = chars_of(s);
    let ps = chars_of(pat);
    if ps.len() > cs.len() {
        proof {
            assert forall|i: int| !occurs_at(s@, pat@, i) by {}
        }
        return false;
    }
    if ps.len() == 0 {
        proof {
            assert(s@.subrange(0, 0) =~= pat@);
            assert(occurs_at(s@, pat@, 0));
        }
        return true;
    }
    let last = cs.len() - ps.len();
    let mut i: usize = 0;
    while i <= last
        invariant
            cs@ == s@,
            ps@ == pat@,
            0 < ps@.len() <= cs@.len(),
            cs@.len() <= usize::MAX,
            last == cs@.len() - ps@.len(),
            i <= last + 1,
            forall|k: int| 0 <= k < i ==> !occurs_at(s@, pat@, k),
        decreases last + 1 - i,
    {
        let mut j: usize = 0;
        let mut same = true;
        while j < ps.len()
            invariant
                cs@ == s@,
                ps@ == pat@,
                i <= last,
                cs@.len() <= usize::MAX,
                last == cs@.len() - ps@.len(),
                0 <= j <= ps@.len(),
                same == (forall|k: int| 0 <= k < j ==> cs@[i + k] == ps@[k]),
            decreases ps@.len() - j,
        {
            assert(i + j < cs@.len());
            if cs[i + j] != ps[j] {
                same = false;
            }
            j += 1;
        }
        if same {
            proof {
                assert(s@.subrange(i as int, i + pat@.len()) =~= pat@);
                assert(occurs_at(s@, pat@, i as int));
            }
            return true;
        }
        proof {
            if occurs_at(s@, pat@, i as int) {
                assert forall|k: int| 0 <= k < ps@.len() implies cs@[i + k] == ps@[k] by {
                    assert(s@.subrange(i as int, i + pat@.len())[k] == pat@[k]);
                }
            }
        }
        i += 1;
    }
    proof {
        assert forall|k: int| !occurs_at(s@, pat@, k) by {
            if 0 <= k < i {
            }
        }
    }
    false
}

/// The index of the first occurrence of `c` in `s`, if any.
pub open spec fn first_index(s: Seq<char>, c: char) -> Option<int>
    decreases s.len(),
{
    if s.len() == 0 {
        None
    } else if s[0] == c {
        Some(0)
    } else {
        match first_index(s.drop_first(), c) {
            Some(k) => Some(k + 1),
            None => None,
        }
    }
}

/// What `first_index` returns: the least index of `c`, or `None` when `c` is absent.
pub proof fn lemma_first_index(s: Seq<char>, c: char)
    ensures
        first_index(s, c) is None <==> !s.contains(c),
        first_index(s, c) matches Some(k) ==> 0 <= k < s.len() && s[k] == c && !s.take(k).contains(c),
    decreases s.len(),
{
    if s.len() > 0 {
        lemma_first_index(s.drop_first(), c);
        if s[0] != c {
            if s.contains(c) {
                let k = choose|k: int| 0 <= k < s.len() && s[k] == c;
                assert(s.drop_first()[k - 1] == c);
            }
            if s.drop_first().contains(c) {
                let k = choose|k: int| 0 <= k < s.drop_first().len() && s.drop_first()[k] == c;
                assert(s[k + 1] == c);
            }
            if let Some(k) = first_index(s.drop_first(), c) {
                if s.take(k + 1).contains(c) {
                    let m = choose|m: int| 0 <= m < k + 1 && #[trigger] s.take(k + 1)[m] == c;
                    assert(m != 0);
                    assert(s.drop_first().take(k)[m - 1] == c);
                }
            }
        } else {
            assert(s.take(0).len() == 0);
        }
    }
}

/// Finds the first occurrence of `c` in `v[from..]`.
pub fn find_char_from(v: &Vec<char>, c: char, from: usize) -> (r: Option<usize>)
    requires
        from <= v@.len(),
    ensures
        r matches Some(k) ==> from <= k < v@.len() && v@[k as int] == c && forall|j: int| from <= j < k ==> v@[j] != c,
        r is None ==> forall|j: int| from <= j < v@.len() ==> v@[j] != c,
{
    let mut i = from;
    while i < v.len()
        invariant
            from <= i <= v@.len(),
            forall|j: int| from <= j < i ==> v@[j] != c,
        decreases v@.len() - i,
    {
        if v[i] == c {
            return Some(i);
        }
        i += 1;
    }
    None
}

// ---------------------------------------------------------------------------
// Number formatting
// ---------------------------------------------------------------------------

/// The character of a digit in base 16 (lower case) or base 10.
pub open spec fn digit_char(d: nat) -> char {
    if d < 10 {
        ((48 + d) as u8) as char
    } else {
        ((87 + d) as u8) as char
    }
}

/// The value of a digit character, as `char::to_digit(16)` reads it for lower-case digits.
pub open spec fn digit_value(c: char) -> nat {
    if '0' <= c && c <= '9' {
        (c as nat - 48) as nat
    } else {
        (c as nat - 87) as nat
    }
}

/// The lower-case hexadecimal digits of `n` without leading zeros (as `format!("{:x}", n)`).
pub open spec fn hex_digits(n: nat) -> Seq<char>
    decreases n,
{
    if n < 16 {
        seq![digit_char(n)]
    } else {
        hex_digits(n / 16).push(digit_char(n % 16))
    }
}

/// The decimal digits of `n` without leading zeros (as `format!("{}", n)`).
pub open spec fn dec_digits(n: nat) -> Seq<char>
    decreases n,
{
    if n < 10 {
        seq![digit_char(n)]
    } else {
        dec_digits(n / 10).push(digit_char(n % 10))
    }
}

/// The decimal text of an integer, with a leading `-` when negative.
pub open spec fn int_text(i: int) -> Seq<char> {
    if i < 0 {
        seq!['-'] + dec_digits((-i) as nat)
    } else {
        dec_digits(i as nat)
    }
}

/// The number that a sequence of digits denotes in the given base.
pub open spec fn digits_value(s: Seq<char>, base: nat) -> nat
    decreases s.len(),
{
    if s.len() == 0 {
        0
    } else {
        digits_value(s.drop_last(), base) * base + digit_value(s.last())
    }
}

/// Whether every character is a lower-case hexadecimal digit.
pub open spec fn all_hex_lower(s: Seq<char>) -> bool {
    forall|i: int| 0 <= i < s.len() ==> ('0' <= #[trigger] s[i] <= '9' || 'a' <= s[i] <= 'f')
}

proof fn lemma_digit_char(d: nat)
    requires
        d < 16,
    ensures
        digit_value(digit_char(d)) == d,
        '0' <= digit_char(d) <= '9' || 'a' <= digit_char(d) <= 'f',
        d < 10 ==> '0' <= digit_char(d) <= '9',
{
}

/// Hexadecimal formatting is faithful: its digits are lower-case hex digits,
/// the first is not a superfluous zero, and they denote `n`.
pub proof fn lemma_hex_digits(n: nat)
    ensures
        hex_digits(n).len() >= 1,
        all_hex_lower(hex_digits(n)),
        digits_value(hex_digits(n), 16) == n,
        hex_digits(n).len() > 1 ==> hex_digits(n)[0] != '0',
    decreases n,
{
    lemma_digit_char(n % 16);
    if n >= 16 {
        lemma_hex_digits(n / 16);
        let p = hex_digits(n / 16);
        assert(hex_digits(n).drop_last() == p);
        assert(hex_digits(n)[0] == p[0]);
        if n / 16 < 16 {
            lemma_digit_char(n / 16);
            assert(n / 16 != 0);
        } else {
            lemma_hex_digits(n / 16 / 16);
            assert(p.len() == hex_digits(n / 16 / 16).len() + 1);
        }
    } else {
        lemma_digit_char(n);
        assert(digits_value(seq![digit_char(n)].drop_last(), 16) == 0);
    }
}

/// Decimal formatting is faithful: the digits denote `n`.
pub proof fn lemma_dec_digits(n: nat)
    ensures
        dec_digits(n).len() >= 1,
        digits_value(dec_digits(n), 10) == n,
        forall|i: int| 0 <= i < dec_digits(n).len() ==> '0' <= #[trigger] dec_digits(n)[i] <= '9',
    decreases n,
{
    lemma_digit_char(n % 10);
    if n >= 10 {
        lemma_dec_digits(n / 10);
        assert(dec_digits(n).drop_last() == dec_digits(n / 10));
    } else {
        lemma_digit_char(n);
        assert(digits_value(seq![digit_char(n)].drop_last(), 10) == 0);
    }
}

fn digit_char_exec(d: u8) -> (c: char)
    requires
        d < 16,
    ensures
        c == digit_char(d as nat),
{
    if d < 10 {
        (48u8 + d) as char
    } else {
        (87u8 + d) as char
    }
}

/// The characters of `rev` in reverse order, as a string.
fn string_of_reversed(rev: &Vec<char>) -> (s: String)
    ensures
        s@ == rev@.reverse(),
{
    let mut s = String::new();
    let mut i = rev.len();
    while i > 0
        invariant
            i <= rev@.len(),
            s@ == rev@.subrange(i as int, rev@.len() as int).reverse(),
        decreases i,
    {
        i -= 1;
        push_char(&mut s, rev[i]);
        proof {
            assert(rev@.subrange(i as int, rev@.len() as int).reverse() == rev@.subrange(i + 1, rev@.len() as int).reverse().push(rev@[i as int]));
        }
    }
    proof {
        assert(rev@.subrange(0, rev@.len() as int) == rev@);
    }
    s
}

/// Lower-case hexadecimal text of `n` (as `format!("{:x}", n)`).
pub fn to_hex_lower(n: u128) -> (s: String)
    ensures
        s@ == hex_digits(n as nat),
{
    let mut m = n;
    let mut rev: Vec<char> = Vec::new();
    while m >= 16
        invariant
            hex_digits(n as nat) == hex_digits(m as nat) + rev@.reverse(),
        decreases m,
    {
        let d = (m % 16) as u8;
        rev.push(digit_char_exec(d));
        proof {
            assert(rev@.reverse() == seq![digit_char(d as nat)] + rev@.drop_last().reverse());
            assert(hex_digits(m as nat) == hex_digits((m / 16) as nat).push(digit_char((m % 16) as nat)));
        }
        m = m / 16;
    }
    rev.push(digit_char_exec(m as u8));
    proof {
        assert(rev@.reverse() == seq![digit_char(m as nat)] + rev@.drop_last().reverse());
    }
    string_of_reversed(&rev)
}

/// Decimal text of `n` (as `format!("{}", n)`).
pub fn u64_to_decimal(n: u64) -> (s: String)
    ensures
        s@ == dec_digits(n as nat),
{
    let mut m = n;
    let mut rev: Vec<char> = Vec::new();
    while m >= 10
        invariant
            dec_digits(n as nat) == dec_digits(m as nat) + rev@.reverse(),
        decreases m,
    {
        let d = (m % 10) as u8;
        rev.push(digit_char_exec(d));
        proof {
            assert(rev@.reverse() == seq![digit_char(d as nat)] + rev@.drop_last().reverse());
            assert(dec_digits(m as nat) == dec_digits((m / 10) as nat).push(digit_char((m % 10) as nat)));
        }
        m = m / 10;
    }
    rev.push(digit_char_exec(m as u8));
    proof {
        assert(rev@.reverse() == seq![digit_char(m as nat)] + rev@.drop_last().reverse());
    }
    string_of_reversed(&rev)
}

/// Decimal text of a signed 32-bit integer (as `format!("{}", n)`).
pub fn i32_to_decimal(n: i32) -> (s: String)
    ensures
        s@ == int_text(n as int),
{
    if n < 0 {
        let mag: u64 = (0i64 - n as i64) as u64;
        let digits = u64_to_decimal(mag);
        proof {
            reveal_strlit("-");
        }
        concat("-", digits.as_str())
    } else {
        u64_to_decimal(n as u64)
    }
}

} // verus!
