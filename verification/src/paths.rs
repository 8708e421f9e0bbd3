//! File paths: the file name and extension of a `/`-separated path (as
//! std's `Path` reads them on Unix), and the MIME type guessed from the
//! extension by the `mime_guess` crate.
use vstd::prelude::*;
use crate::text::{
    chars_of, is_char, lemma_split_when_concat, lemma_split_when_free, lemma_split_when_nonempty, split_by, split_char,
    str_eq, string_of_range, views,
};

verus! {

/// Whether a piece of a path is a component that names something (neither
/// empty nor `.`).
pub open spec fn is_named_component(c: Seq<char>) -> bool {
    c.len() > 0 && c != seq!['.']
}

/// The predicate `is_named_component`.
pub open spec fn named_component_pred() -> spec_fn(Seq<char>) -> bool {
    |c: Seq<char>| is_named_component(c)
}

/// The components of a path that name something, in order.
pub open spec fn path_components(p: Seq<char>) -> Seq<Seq<char>> {
    split_by(p, '/').filter(named_component_pred())
}

/// The file name of a path (`Path::file_name`): its last component, unless
/// there is none or it is `..`.
pub open spec fn file_name_of(p: Seq<char>) -> Option<Seq<char>> {
    let cs = path_components(p);
    if cs.len() == 0 || cs.last() == seq!['.', '.'] {
        None
    } else {
        Some(cs.last())
    }
}

/// The index of the last occurrence of `c` in `s`, if any.
pub open spec fn last_index(s: Seq<char>, c: char) -> Option<int>
    decreases s.len(),
{
    if s.len() == 0 {
        None
    } else if s.last() == c {
        Some(s.len() - 1)
    } else {
        last_index(s.drop_last(), c)
    }
}

/// The extension of a file name: the text after its last `.`, unless it has
/// none or its only `.` starts it.
pub open spec fn extension_of_name(n: Seq<char>) -> Option<Seq<char>> {
    match last_index(n, '.') {
        Some(i) => if i == 0 {
            None
        } else {
            Some(n.skip(i + 1))
        },
        None => None,
    }
}

/// The extension of a path (`Path::extension`).
pub open spec fn extension_of(p: Seq<char>) -> Option<Seq<char>> {
    match file_name_of(p) {
        Some(n) => extension_of_name(n),
        None => None,
    }
}

proof fn lemma_filter_push<A>(s: Seq<A>, p: spec_fn(A) -> bool, x: A)
    ensures
        s.push(x).filter(p) == if p(x) {
            s.filter(p).push(x)
        } else {
            s.filter(p)
        },
{
    reveal(Seq::filter);
    assert(s.push(x).drop_last() == s);
}

/// A name of a file: non-empty, without `/`, and neither `.` nor `..`.
pub open spec fn is_plain_name(n: Seq<char>) -> bool {
    n.len() > 0 && !n.contains('/') && n != seq!['.'] && n != seq!['.', '.']
}

/// The file name of a path is its last component: a plain name `n` is the
/// file name of `n` itself and of `d/n` for every path `d`, however many
/// components `d` has; the extension (and so the guessed MIME type) of such
/// a path is that of `n`.
pub proof fn lemma_file_name_last(d: Seq<char>, n: Seq<char>)
    requires
        is_plain_name(n),
    ensures
        file_name_of(n) == Some(n),
        file_name_of(d + seq!['/'] + n) == Some(n),
        extension_of(d + seq!['/'] + n) == extension_of_name(n),
        guessed_mime_type(d + seq!['/'] + n) == guessed_mime_type(n),
{
    let p = is_char('/');
    assert forall|i: int| 0 <= i < n.len() implies !p(#[trigger] n[i]) by {
        if n[i] == '/' {
            assert(n.contains('/'));
        }
    }
    lemma_split_when_free(n, p);
    assert(split_by(n, '/') == seq![n]);
    lemma_filter_push(Seq::<Seq<char>>::empty(), named_component_pred(), n);
    assert(seq![n] =~= Seq::<Seq<char>>::empty().push(n));
    assert(Seq::<Seq<char>>::empty().filter(named_component_pred()) =~= Seq::<Seq<char>>::empty()) by {
        reveal(Seq::filter);
    }
    assert(path_components(n) =~= seq![n]);
    let x = d + seq!['/'];
    lemma_split_when_nonempty(d, p);
    assert(x.drop_last() =~= d);
    assert(x.last() == '/');
    assert(split_by(x, '/') == split_by(d, '/').push(Seq::<char>::empty()));
    lemma_split_when_concat(x, n, p);
    let sd = split_by(d, '/');
    assert(Seq::<char>::empty() + n =~= n);
    assert(split_by(x + n, '/') =~= sd.push(n));
    lemma_filter_push(sd, named_component_pred(), n);
    assert(path_components(x + n) == sd.filter(named_component_pred()).push(n));
    assert(d + seq!['/'] + n == x + n);
}

/// The file name of a path.
pub fn file_name(path: &str) -> (r: Option<String>)
    ensures
        match r {
            Some(n) => file_name_of(path@) == Some(n@),
            None => file_name_of(path@) is None,
        },
{
    let pieces = split_char(path, '/');
    let ghost ps = views(pieces@);
    let mut last: Option<usize> = None;
    let mut i: usize = 0;
    proof {
        reveal(Seq::filter);
        assert(ps.take(0) =~= Seq::<Seq<char>>::empty());
    }
    while i < pieces.len()
        invariant
            0 <= i <= pieces@.len(),
            ps == views(pieces@),
            ps == split_by(path@, '/'),
            match last {
                Some(k) => k < i && ps.take(i as int).filter(named_component_pred()).len() > 0 && ps.take(
                    i as int,
                ).filter(named_component_pred()).last() == ps[k as int],
                None => ps.take(i as int).filter(named_component_pred()).len() == 0,
            },
        decreases pieces@.len() - i,
    {
        let piece = pieces[i].as_str();
        proof {
            assert(ps.take(i + 1) =~= ps.take(i as int).push(ps[i as int]));
            lemma_filter_push(ps.take(i as int), named_component_pred(), ps[i as int]);
            reveal_strlit(".");
        }
        let named = !piece.is_empty() && !str_eq(piece, ".");
        proof {
            assert(piece@ == ps[i as int]);
            assert(named_component_pred()(ps[i as int]) == is_named_component(ps[i as int]));
            assert("."@ =~= seq!['.']);
            assert(named == is_named_component(ps[i as int]));
        }
        if named {
            last = Some(i);
        }
        i += 1;
    }
    proof {
        assert(ps.take(pieces@.len() as int) =~= ps);
        reveal_strlit("..");
    }
    proof {
        assert(".."@ =~= seq!['.', '.']);
        assert(path_components(path@) == ps.filter(named_component_pred()));
    }
    match last {
        Some(k) => {
            if str_eq(pieces[k].as_str(), "..") {
                None
            } else {
                Some(pieces[k].clone())
            }
        },
        None => None,
    }
}

/// The extension of a file name.
pub fn name_extension(name: &str) -> (r: Option<String>)
    ensures
        match r {
            Some(e) => extension_of_name(name@) == Some(e@),
            None => extension_of_name(name@) is None,
        },
{
    let cs = chars_of(name);
    proof {
        assert(cs@.take(cs@.len() as int) =~= cs@);
    }
    let mut i = cs.len();
    while i > 0
        invariant
            i <= cs@.len(),
            cs@ == name@,
            last_index(name@, '.') == last_index(cs@.take(i as int), '.'),
        decreases i,
    {
        proof {
            assert(cs@.take(i as int).drop_last() =~= cs@.take(i - 1));
        }
        if cs[i - 1] == '.' {
            if i == 1 {
                return None;
            }
            let e = string_of_range(&cs, i, cs.len());
            proof {
                assert(name@.skip(i as int) == cs@.subrange(i as int, cs@.len() as int));
            }
            return Some(e);
        }
        i -= 1;
    }
    proof {
        assert(cs@.take(0) =~= Seq::<char>::empty());
    }
    None
}

/// The extension of a path.
pub fn extension(path: &str) -> (r: Option<String>)
    ensures
        match r {
            Some(e) => extension_of(path@) == Some(e@),
            None => extension_of(path@) is None,
        },
{
    match file_name(path) {
        Some(n) => name_extension(n.as_str()),
        None => None,
    }
}

/// The MIME type that `mime_guess` lists first for a file extension (the
/// crate's table, searched without regard to case), if any.
pub uninterp spec fn mime_type_of_extension(ext: Seq<char>) -> Option<Seq<char>>;

/// `mime_guess::from_ext(ext).first()`, written as text. The result is the
/// crate's table entry for the extension, named `mime_type_of_extension`;
/// an empty extension has none.
#[verifier::external_body]
fn mime_for_extension(ext: &str) -> (r: Option<String>)
    ensures
        match r {
            Some(m) => mime_type_of_extension(ext@) == Some(m@),
            None => mime_type_of_extension(ext@) is None,
        },
        ext@.len() == 0 ==> r is None,
{
    mime_guess::from_ext(ext).first().map(|m| m.to_string())
}

/// The MIME type guessed for a path, as `mime_guess::from_path(path).first()`
/// gives it (by the path's extension), else `application/octet-stream`.
pub open spec fn guessed_mime_type(p: Seq<char>) -> Seq<char> {
    match extension_of(p) {
        Some(e) => match mime_type_of_extension(e) {
            Some(m) => m,
            None => "application/octet-stream"@,
        },
        None => "application/octet-stream"@,
    }
}

/// Guesses the MIME type of a file from its path.
pub fn guess_mime_type(path: &str) -> (m: String)
    ensures
        m@ == guessed_mime_type(path@),
{
    match extension(path) {
        Some(e) => match mime_for_extension(e.as_str()) {
            Some(m) => m,
            None => "application/octet-stream".to_string(),
        },
        None => "application/octet-stream".to_string(),
    }
}

/// The file name of a path, or `default` when it has none.
pub fn file_name_or(path: &str, default: &str) -> (n: String)
    ensures
        n@ == match file_name_of(path@) {
            Some(f) => f,
            None => default@,
        },
{
    match file_name(path) {
        Some(n) => n,
        None => default.to_string(),
    }
}

} // verus!
