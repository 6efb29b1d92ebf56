//! Unix path text: joining, components, and the file name, stem and
//! extension of a path, with the meaning `std::path` gives them.

use vstd::prelude::*;
use crate::text::{
    chars_eq, concat_chars, copy_chars, lemma_split_no_sep, lemma_split_nonempty,
    lemma_split_pieces_free, lemma_split_push_piece, split_chars, split_on, sub_chars, views,
};

verus! {

/// `base` joined with `p`, as `Path::join`: an absolute `p` replaces `base`;
/// otherwise a `/` is put between them unless `base` is empty or already
/// ends with one.
pub open spec fn path_join(base: Seq<char>, p: Seq<char>) -> Seq<char> {
    if p.len() > 0 && p[0] == '/' {
        p
    } else if base.len() > 0 && base.last() != '/' {
        base + seq!['/'] + p
    } else {
        base + p
    }
}

/// Whether the path starts at the root.
pub open spec fn has_root(s: Seq<char>) -> bool {
    s.len() > 0 && s[0] == '/'
}

/// A piece between slashes that names something: not empty and not `.`.
pub open spec fn is_normal_segment(seg: Seq<char>) -> bool {
    seg.len() > 0 && seg != seq!['.']
}

/// The pieces of `s` between slashes that `Path::components` keeps as
/// named components (`..` included).
pub open spec fn named_segments(s: Seq<char>) -> Seq<Seq<char>> {
    split_on(s, '/').filter(|seg: Seq<char>| is_normal_segment(seg))
}

/// Whether a relative path begins with a `.` component, which
/// `Path::components` keeps.
pub open spec fn leading_cur_dir(s: Seq<char>) -> bool {
    !has_root(s) && split_on(s, '/')[0] == seq!['.']
}

/// The components of `s` as `Path::components` yields them, each written as
/// text: the root as `/`, a leading current directory as `.`, and the rest
/// as the named pieces.
pub open spec fn components(s: Seq<char>) -> Seq<Seq<char>> {
    (if has_root(s) {
        seq![seq!['/']]
    } else {
        Seq::<Seq<char>>::empty()
    }) + (if leading_cur_dir(s) {
        seq![seq!['.']]
    } else {
        Seq::<Seq<char>>::empty()
    }) + named_segments(s)
}

/// `Path::starts_with`: the components of `base` begin those of `s`.
pub open spec fn path_starts_with(s: Seq<char>, base: Seq<char>) -> bool {
    let a = components(s);
    let b = components(base);
    b.len() <= a.len() && a.subrange(0, b.len() as int) == b
}

/// `Path == Path`: equal components.
pub open spec fn path_eq(a: Seq<char>, b: Seq<char>) -> bool {
    components(a) == components(b)
}

/// `Path::file_name`: the last component, when it is a name other than `..`.
pub open spec fn file_name(s: Seq<char>) -> Option<Seq<char>> {
    let n = named_segments(s);
    if n.len() > 0 && n.last() != seq!['.', '.'] {
        Some(n.last())
    } else {
        None
    }
}

/// Index of the last `c` in `s`, or -1.
pub open spec fn last_index_of(s: Seq<char>, c: char) -> int
    decreases s.len(),
{
    if s.len() == 0 {
        -1
    } else if s.last() == c {
        s.len() - 1
    } else {
        last_index_of(s.drop_last(), c)
    }
}

/// A file name cut at its last dot, as `Path::file_stem` and
/// `Path::extension` cut it: no cut when there is no dot or the only
/// candidate dot is the first character.
pub open spec fn stem_and_extension(name: Seq<char>) -> (Seq<char>, Option<Seq<char>>) {
    let k = last_index_of(name, '.');
    if k > 0 {
        (name.subrange(0, k), Some(name.subrange(k + 1, name.len() as int)))
    } else {
        (name, None)
    }
}

proof fn lemma_last_index_of(s: Seq<char>, c: char)
    ensures
        -1 <= last_index_of(s, c) < s.len(),
        last_index_of(s, c) >= 0 ==> s[last_index_of(s, c)] == c,
    decreases s.len(),
{
    if s.len() > 0 && s.last() != c {
        lemma_last_index_of(s.drop_last(), c);
    }
}

/// Cutting a name at its last dot loses nothing: the stem, a dot and the
/// extension make up the name, and without an extension the stem is the
/// whole name.
pub proof fn lemma_stem_and_extension(name: Seq<char>)
    ensures
        match stem_and_extension(name) {
            (stem, Some(e)) => stem + seq!['.'] + e == name,
            (stem, None) => stem == name,
        },
{
    let k = last_index_of(name, '.');
    lemma_last_index_of(name, '.');
    if k > 0 {
        assert(name.subrange(0, k) + seq!['.'] + name.subrange(k + 1, name.len() as int) =~= name);
    }
}

/// `Path::extension`.
pub open spec fn extension(s: Seq<char>) -> Option<Seq<char>> {
    match file_name(s) {
        Some(n) => stem_and_extension(n).1,
        None => None,
    }
}

/// `Path::file_stem`.
pub open spec fn file_stem(s: Seq<char>) -> Option<Seq<char>> {
    match file_name(s) {
        Some(n) => Some(stem_and_extension(n).0),
        None => None,
    }
}

/// `base` joined with `p` (as `Path::join`).
pub fn join(base: &[char], p: &[char]) -> (r: Vec<char>)
    ensures
        r@ == path_join(base@, p@),
{
    if p.len() > 0 && p[0] == '/' {
        copy_chars(p)
    } else if base.len() > 0 && base[base.len() - 1] != '/' {
        let mut b = copy_chars(base);
        b.push('/');
        let r = concat_chars(&b, p);
        assert(r@ =~= base@ + seq!['/'] + p@);
        r
    } else {
        concat_chars(base, p)
    }
}

proof fn lemma_filter_step(segs: Seq<Seq<char>>, i: int)
    requires
        0 <= i < segs.len(),
    ensures
        segs.take(i + 1).filter(|seg: Seq<char>| is_normal_segment(seg)) == if is_normal_segment(
            segs[i],
        ) {
            segs.take(i).filter(|seg: Seq<char>| is_normal_segment(seg)).push(segs[i])
        } else {
            segs.take(i).filter(|seg: Seq<char>| is_normal_segment(seg))
        },
{
    reveal(Seq::filter);
    assert(segs.take(i + 1).drop_last() =~= segs.take(i));
}

/// The named pieces of `s` (see `named_segments`).
pub fn named_segments_of(s: &[char]) -> (r: Vec<Vec<char>>)
    ensures
        views(r@) == named_segments(s@),
{
    let pieces = split_chars(s, '/');
    let ghost segs = views(pieces@);
    let mut out: Vec<Vec<char>> = Vec::new();
    let mut i: usize = 0;
    assert(segs.take(0) =~= Seq::<Seq<char>>::empty());
    proof { reveal(Seq::filter); }
    assert(views(out@) =~= segs.take(0).filter(|seg: Seq<char>| is_normal_segment(seg)));
    while i < pieces.len()
        invariant
            i <= pieces@.len(),
            segs == views(pieces@),
            segs == split_on(s@, '/'),
            views(out@) == segs.take(i as int).filter(|seg: Seq<char>| is_normal_segment(seg)),
        decreases pieces@.len() - i,
    {
        proof { lemma_filter_step(segs, i as int); }
        let seg = &pieces[i];
        assert(seg@ == segs[i as int]);
        let ghost dot = seq!['.'];
        let normal = seg.len() > 0 && !(seg.len() == 1 && seg[0] == '.');
        assert(normal == is_normal_segment(seg@)) by {
            if seg@.len() == 1 && seg@[0] == '.' {
                assert(seg@ =~= dot);
            }
            if seg@ == dot {
                assert(seg@.len() == 1);
            }
        }
        if normal {
            let ghost before = out@;
            out.push(copy_chars(seg));
            assert(views(out@) =~= views(before).push(seg@));
        }
        i = i + 1;
    }
    assert(segs.take(pieces@.len() as int) =~= segs);
    out
}

/// The components of `s` (see `components`).
pub fn components_of(s: &[char]) -> (r: Vec<Vec<char>>)
    ensures
        views(r@) == components(s@),
{
    let named = named_segments_of(s);
    let mut out: Vec<Vec<char>> = Vec::new();
    let root = s.len() > 0 && s[0] == '/';
    if root {
        let mut r: Vec<char> = Vec::new();
        r.push('/');
        out.push(r);
    }
    let pieces = split_chars(s, '/');
    proof { lemma_split_nonempty(s@, '/'); }
    let first = &pieces[0];
    let cur = !root && first.len() == 1 && first[0] == '.';
    assert(cur == leading_cur_dir(s@)) by {
        assert(first@ == split_on(s@, '/')[0]);
        if first@.len() == 1 && first@[0] == '.' {
            assert(first@ =~= seq!['.']);
        }
    }
    if cur {
        let mut d: Vec<char> = Vec::new();
        d.push('.');
        out.push(d);
    }
    let ghost head = views(out@);
    let mut i: usize = 0;
    while i < named.len()
        invariant
            i <= named@.len(),
            views(out@) == head + views(named@).take(i as int),
        decreases named@.len() - i,
    {
        let ghost before = out@;
        out.push(copy_chars(&named[i]));
        assert(views(named@).take(i + 1) =~= views(named@).take(i as int).push(named@[i as int]@));
        assert(views(out@) =~= views(before).push(named@[i as int]@));
        i = i + 1;
    }
    assert(views(named@).take(named@.len() as int) =~= views(named@));
    assert(views(out@) =~= components(s@));
    out
}

/// Whether the component lists `a` and `b` are equal.
fn comps_eq(a: &Vec<Vec<char>>, b: &Vec<Vec<char>>) -> (r: bool)
    ensures
        r == (views(a@) == views(b@)),
{
    if a.len() != b.len() {
        assert(views(a@).len() != views(b@).len());
        return false;
    }
    let mut i: usize = 0;
    while i < a.len()
        invariant
            a@.len() == b@.len(),
            i <= a@.len(),
            forall|j: int| 0 <= j < i ==> a@[j]@ == b@[j]@,
        decreases a@.len() - i,
    {
        if !chars_eq(&a[i], &b[i]) {
            assert(views(a@)[i as int] != views(b@)[i as int]);
            return false;
        }
        i = i + 1;
    }
    assert(views(a@) =~= views(b@));
    true
}

/// Whether the component list `b` begins the component list `a`.
fn comps_prefix(a: &Vec<Vec<char>>, b: &Vec<Vec<char>>) -> (r: bool)
    ensures
        r == (views(b@).len() <= views(a@).len() && views(a@).subrange(0, views(b@).len() as int)
            == views(b@)),
{
    if b.len() > a.len() {
        return false;
    }
    let mut i: usize = 0;
    while i < b.len()
        invariant
            b@.len() <= a@.len(),
            i <= b@.len(),
            forall|j: int| 0 <= j < i ==> a@[j]@ == b@[j]@,
        decreases b@.len() - i,
    {
        if !chars_eq(&a[i], &b[i]) {
            assert(views(a@).subrange(0, views(b@).len() as int)[i as int] != views(b@)[i as int]);
            return false;
        }
        i = i + 1;
    }
    assert(views(a@).subrange(0, views(b@).len() as int) =~= views(b@));
    true
}

/// Whether path `s` starts with path `base`, component by component (as
/// `Path::starts_with`).
pub fn starts_with_path(s: &[char], base: &[char]) -> (r: bool)
    ensures
        r == path_starts_with(s@, base@),
{
    let a = components_of(s);
    let b = components_of(base);
    comps_prefix(&a, &b)
}

/// Whether paths `a` and `b` have the same components (as `Path == Path`).
pub fn same_path(a: &[char], b: &[char]) -> (r: bool)
    ensures
        r == path_eq(a@, b@),
{
    let x = components_of(a);
    let y = components_of(b);
    comps_eq(&x, &y)
}

/// The file name of `s` (as `Path::file_name`).
pub fn file_name_of(s: &[char]) -> (r: Option<Vec<char>>)
    ensures
        r matches Some(v) ==> file_name(s@) == Some(v@),
        r is None ==> file_name(s@) is None,
{
    let named = named_segments_of(s);
    if named.len() == 0 {
        return None;
    }
    let last = &named[named.len() - 1];
    assert(last@ == views(named@).last());
    let dotdot = last.len() == 2 && last[0] == '.' && last[1] == '.';
    assert(dotdot == (last@ == seq!['.', '.'])) by {
        if last@.len() == 2 && last@[0] == '.' && last@[1] == '.' {
            assert(last@ =~= seq!['.', '.']);
        }
    }
    if dotdot {
        None
    } else {
        Some(copy_chars(last))
    }
}

/// Index of the last `c` in `s`, if any.
fn last_index(s: &[char], c: char) -> (r: Option<usize>)
    ensures
        r matches Some(k) ==> last_index_of(s@, c) == k as int && k < s@.len(),
        r is None ==> last_index_of(s@, c) == -1,
{
    let mut i: usize = s.len();
    assert(s@.take(s@.len() as int) =~= s@);
    while i > 0
        invariant
            i <= s@.len(),
            last_index_of(s@, c) == last_index_of(s@.take(i as int), c),
        decreases i,
    {
        assert(s@.take(i as int).drop_last() =~= s@.take(i - 1));
        if s[i - 1] == c {
            return Some(i - 1);
        }
        i = i - 1;
    }
    None
}

proof fn lemma_take_full(s: Seq<char>)
    ensures
        s.take(s.len() as int) == s,
{
    assert(s.take(s.len() as int) =~= s);
}

/// A file name cut at its last dot (see `stem_and_extension`).
pub fn split_stem(name: &[char]) -> (r: (Vec<char>, Option<Vec<char>>))
    ensures
        r.0@ == stem_and_extension(name@).0,
        r.1 matches Some(e) ==> stem_and_extension(name@).1 == Some(e@),
        r.1 is None ==> stem_and_extension(name@).1 is None,
{
    proof { lemma_take_full(name@); }
    match last_index(name, '.') {
        Some(k) => {
            assert(k < name.len());
            if k > 0 {
                (sub_chars(name, 0, k), Some(sub_chars(name, k + 1, name.len())))
            } else {
                (copy_chars(name), None)
            }
        },
        None => (copy_chars(name), None),
    }
}

/// The extension of `s` (as `Path::extension`).
pub fn extension_of(s: &[char]) -> (r: Option<Vec<char>>)
    ensures
        r matches Some(v) ==> extension(s@) == Some(v@),
        r is None ==> extension(s@) is None,
{
    match file_name_of(s) {
        Some(n) => split_stem(&n).1,
        None => None,
    }
}

/// The file stem of `s` (as `Path::file_stem`).
pub fn file_stem_of(s: &[char]) -> (r: Option<Vec<char>>)
    ensures
        r matches Some(v) ==> file_stem(s@) == Some(v@),
        r is None ==> file_stem(s@) is None,
{
    match file_name_of(s) {
        Some(n) => Some(split_stem(&n).0),
        None => None,
    }
}

proof fn lemma_named_push(pieces: Seq<Seq<char>>, b: Seq<char>)
    ensures
        pieces.push(b).filter(|seg: Seq<char>| is_normal_segment(seg)) == if is_normal_segment(b) {
            pieces.filter(|seg: Seq<char>| is_normal_segment(seg)).push(b)
        } else {
            pieces.filter(|seg: Seq<char>| is_normal_segment(seg))
        },
{
    reveal(Seq::filter);
    assert(pieces.push(b).drop_last() =~= pieces);
}

/// Joining a directory with a plain name (not empty, not `.`, no slash)
/// adds exactly that name as the last component: the result lies inside
/// the directory and is named by that name.
pub proof fn lemma_join_child(base: Seq<char>, name: Seq<char>)
    requires
        is_normal_segment(name),
        !name.contains('/'),
    ensures
        components(path_join(base, name)) == components(base).push(name),
        path_starts_with(path_join(base, name), base),
        name != seq!['.', '.'] ==> file_name(path_join(base, name)) == Some(name),
{
    let j = path_join(base, name);
    assert(!(name.len() > 0 && name[0] == '/')) by {
        if name.len() > 0 && name[0] == '/' {
            assert(name.contains('/'));
        }
    }
    if base.len() == 0 {
        assert(j =~= name);
        lemma_split_no_sep(name, '/');
        lemma_split_no_sep(base, '/');
        lemma_named_push(Seq::<Seq<char>>::empty(), name);
        lemma_named_push(Seq::<Seq<char>>::empty(), base);
        reveal(Seq::filter);
        assert(seq![name] =~= Seq::<Seq<char>>::empty().push(name));
        assert(seq![base] =~= Seq::<Seq<char>>::empty().push(base));
        assert(Seq::<Seq<char>>::empty().filter(|seg: Seq<char>| is_normal_segment(seg))
            =~= Seq::<Seq<char>>::empty());
        assert(!is_normal_segment(base));
        assert(name != seq!['.']);
        assert(components(j) =~= components(base).push(name));
    } else {
        let p: Seq<char> = if base.last() == '/' {
            base.drop_last()
        } else {
            base
        };
        if base.last() == '/' {
            assert(base =~= p.push('/'));
            assert(j =~= p.push('/') + name);
            lemma_split_push_piece(p, name, '/');
            lemma_split_push_piece(p, Seq::<char>::empty(), '/');
            assert(p.push('/') + Seq::<char>::empty() =~= base);
            lemma_named_push(split_on(p, '/'), name);
            lemma_named_push(split_on(p, '/'), Seq::<char>::empty());
            lemma_split_nonempty(p, '/');
            assert(split_on(j, '/')[0] == split_on(base, '/')[0]);
        } else {
            assert(j =~= base.push('/') + name);
            lemma_split_push_piece(base, name, '/');
            lemma_named_push(split_on(base, '/'), name);
            lemma_split_nonempty(base, '/');
            assert(split_on(j, '/')[0] == split_on(base, '/')[0]);
        }
        assert(j[0] == base[0]);
        assert(named_segments(j) == named_segments(base).push(name));
        assert(components(j) =~= components(base).push(name));
    }
    let a = components(j);
    let b = components(base);
    assert(a.subrange(0, b.len() as int) =~= b);
}

/// The file name of a path is one of its pieces between slashes, so it
/// holds no slash and is not empty or `.`.
pub proof fn lemma_file_name_plain(s: Seq<char>)
    ensures
        file_name(s) matches Some(n) ==> is_normal_segment(n) && !n.contains('/'),
{
    let pieces = split_on(s, '/');
    let n = named_segments(s);
    if n.len() > 0 {
        broadcast use vstd::seq_lib::group_filter_ensures;
        let x = n.last();
        assert(n.contains(x)) by {
            assert(n[n.len() - 1] == x);
        }
        pieces.lemma_filter_contains_rev(|seg: Seq<char>| is_normal_segment(seg), x);
        assert(is_normal_segment(x)) by {
            pieces.lemma_filter_pred(|seg: Seq<char>| is_normal_segment(seg), n.len() - 1);
        }
        lemma_split_pieces_free(s, '/');
        let i = choose|i: int| 0 <= i < pieces.len() && pieces[i] == x;
        assert(!pieces[i].contains('/'));
    }
}

} // verus!
