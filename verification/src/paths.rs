//! Unix path handling on strings: the final component, its stem and
//! extension as std's `Path` documents them, and the std calls that join
//! and split paths.
use vstd::prelude::*;
use crate::text::{chars_eq, chars_of, push_all, push_char, string_of, string_of_range, trim_end_char};

verus! {

/// The characters after the last `c` in `s` (all of `s` when it holds no `c`).
pub open spec fn after_last(s: Seq<char>, c: char) -> Seq<char>
    decreases s.len(),
{
    if s.len() == 0 {
        s
    } else if s.last() == c {
        Seq::empty()
    } else {
        after_last(s.drop_last(), c).push(s.last())
    }
}

/// Whether `c` occurs in `s`.
pub open spec fn has_char(s: Seq<char>, c: char) -> bool {
    exists|i: int| 0 <= i < s.len() && s[i] == c
}

proof fn lemma_after_last_len(s: Seq<char>, c: char)
    ensures
        after_last(s, c).len() <= s.len(),
        after_last(s, c) == s.skip(s.len() - after_last(s, c).len()),
        !has_char(after_last(s, c), c),
        after_last(s, c).len() < s.len() ==> s[s.len() - after_last(s, c).len() - 1] == c,
        after_last(s, c).len() == s.len() ==> !has_char(s, c),
    decreases s.len(),
{
    if s.len() == 0 {
    } else if s.last() == c {
        assert(s.skip(s.len() as int) =~= Seq::<char>::empty());
    } else {
        lemma_after_last_len(s.drop_last(), c);
        let a = after_last(s.drop_last(), c);
        assert(s.skip(s.len() - a.len() - 1) =~= a.push(s.last()));
        if has_char(a.push(s.last()), c) {
            let i = choose|i: int| 0 <= i < a.len() + 1 && a.push(s.last())[i] == c;
            assert(a[i] == c);
        }
        if a.len() + 1 == s.len() && has_char(s, c) {
            let i = choose|i: int| 0 <= i < s.len() && s[i] == c;
            if i < s.len() - 1 {
                assert(s.drop_last()[i] == c);
            }
        }
    }
}

proof fn lemma_trim_end_len(s: Seq<char>, c: char)
    ensures
        trim_end_char(s, c).len() <= s.len(),
        trim_end_char(s, c) == s.take(trim_end_char(s, c).len() as int),
        trim_end_char(s, c).len() > 0 ==> trim_end_char(s, c).last() != c,
    decreases s.len(),
{
    if s.len() > 0 && s.last() == c {
        lemma_trim_end_len(s.drop_last(), c);
        assert(s.drop_last().take(trim_end_char(s, c).len() as int) == s.take(
            trim_end_char(s, c).len() as int,
        ));
    } else {
        assert(s.take(s.len() as int) == s);
    }
}

/// The final component of a path, as std `Path::file_name` documents it:
/// separators repeat freely, trailing separators and `.` components are
/// normalized away, and a final `..` (or no component at all) gives none.
pub open spec fn file_name_of(s: Seq<char>) -> Option<Seq<char>>
    decreases s.len(),
{
    let t = trim_end_char(s, '/');
    if t.len() == 0 || t.len() > s.len() {
        None
    } else {
        let seg = after_last(t, '/');
        if seg == seq!['.'] {
            file_name_of(t.drop_last())
        } else if seg == seq!['.', '.'] {
            None
        } else {
            Some(seg)
        }
    }
}

/// Position of the last `.` in `name`, when there is one.
pub open spec fn last_dot(name: Seq<char>) -> int {
    name.len() - after_last(name, '.').len() - 1
}

/// The extension of a file name, as std `Path::extension` documents it:
/// none without an embedded `.`, none when the name begins with `.` and has
/// no other `.`, otherwise the part after the final `.`.
pub open spec fn extension_of_name(name: Seq<char>) -> Option<Seq<char>> {
    if has_char(name, '.') && last_dot(name) > 0 {
        Some(after_last(name, '.'))
    } else {
        None
    }
}

/// The stem of a file name, as std `Path::file_stem` documents it: the whole
/// name without an embedded `.` or when it begins with `.` and has no other
/// `.`, otherwise the part before the final `.`.
pub open spec fn stem_of_name(name: Seq<char>) -> Seq<char> {
    if has_char(name, '.') && last_dot(name) > 0 {
        name.take(last_dot(name))
    } else {
        name
    }
}

/// The extension of a path (std `Path::extension`).
pub open spec fn extension_of(path: Seq<char>) -> Option<Seq<char>> {
    match file_name_of(path) {
        Some(name) => extension_of_name(name),
        None => None,
    }
}

/// The stem of a path (std `Path::file_stem`).
pub open spec fn stem_of(path: Seq<char>) -> Option<Seq<char>> {
    match file_name_of(path) {
        Some(name) => Some(stem_of_name(name)),
        None => None,
    }
}

/// Whether a path is absolute on Unix: it begins with the root `/`.
pub open spec fn is_absolute_path(path: Seq<char>) -> bool {
    path.len() > 0 && path[0] == '/'
}

/// Length `m <= n` with `v[..m]` the prefix of `v[..n]` without trailing `c`.
fn trimmed_len(v: &Vec<char>, n: usize, c: char) -> (m: usize)
    requires
        n <= v.len(),
    ensures
        m <= n,
        v@.take(m as int) == trim_end_char(v@.take(n as int), c),
{
    let mut m = n;
    while m > 0 && v[m - 1] == c
        invariant
            m <= n <= v.len(),
            trim_end_char(v@.take(m as int), c) == trim_end_char(v@.take(n as int), c),
        decreases m,
    {
        assert(v@.take(m as int).drop_last() == v@.take(m - 1));
        m = m - 1;
    }
    m
}

/// Start `k <= n` of the run after the last `c` in `v[..n]`.
fn after_last_start(v: &Vec<char>, n: usize, c: char) -> (k: usize)
    requires
        n <= v.len(),
    ensures
        k <= n,
        v@.subrange(k as int, n as int) == after_last(v@.take(n as int), c),
{
    let mut k = n;
    proof {
        assert(v@.subrange(n as int, n as int) =~= Seq::<char>::empty());
    }
    while k > 0 && v[k - 1] != c
        invariant
            k <= n <= v.len(),
            after_last(v@.take(n as int), c) == after_last(v@.take(k as int), c) + v@.subrange(
                k as int,
                n as int,
            ),
            forall|j: int| k <= j < n ==> v@[j] != c,
        decreases k,
    {
        assert(v@.take(k as int).drop_last() == v@.take(k - 1));
        assert(v@.subrange(k - 1, n as int) == seq![v@[k - 1]] + v@.subrange(k as int, n as int));
        assert(after_last(v@.take(k - 1), c).push(v@[k - 1]) + v@.subrange(k as int, n as int)
            == after_last(v@.take(k - 1), c) + v@.subrange(k - 1, n as int));
        k = k - 1;
    }
    if k == 0 {
        assert(v@.take(0) =~= Seq::<char>::empty());
    } else {
        assert(v@.take(k as int).last() == c);
    }
    k
}

/// Range `(start, end)` of the final component within `v[..n]`, if any.
#[verifier::spinoff_prover]
fn file_name_range(v: &Vec<char>, n: usize) -> (r: Option<(usize, usize)>)
    requires
        n <= v.len(),
    ensures
        match r {
            Some((a, b)) => a <= b <= n && file_name_of(v@.take(n as int)) == Some(
                v@.subrange(a as int, b as int),
            ),
            None => file_name_of(v@.take(n as int)) is None,
        },
    decreases n,
{
    let m = trimmed_len(v, n, '/');
    proof {
        lemma_trim_end_len(v@.take(n as int), '/');
    }
    if m == 0 {
        return None;
    }
    let k = after_last_start(v, m, '/');
    proof {
        assert(v@.take(n as int).take(m as int) == v@.take(m as int));
    }
    if m - k == 1 && v[k] == '.' {
        proof {
            assert(v@.subrange(k as int, m as int) =~= seq!['.']);
            assert(v@.take(m as int).drop_last() == v@.take(m - 1));
        }
        return file_name_range(v, m - 1);
    }
    if m - k == 2 && v[k] == '.' && v[k + 1] == '.' {
        proof {
            assert(v@.subrange(k as int, m as int) =~= seq!['.', '.']);
        }
        return None;
    }
    proof {
        if v@.subrange(k as int, m as int) == seq!['.'] {
            assert(v@.subrange(k as int, m as int)[0] == v@[k as int]);
        }
        if v@.subrange(k as int, m as int) == seq!['.', '.'] {
            assert(v@.subrange(k as int, m as int)[0] == v@[k as int]);
            assert(v@.subrange(k as int, m as int)[1] == v@[k + 1]);
        }
    }
    Some((k, m))
}

/// The final component of `path` (std `Path::file_name`), as a string.
pub fn file_name(path: &str) -> (res: Option<String>)
    ensures
        res.deep_view() == file_name_of(path@),
{
    let v = chars_of(path);
    proof {
        assert(v@.take(v.len() as int) == v@);
    }
    match file_name_range(&v, v.len()) {
        Some((a, b)) => Some(string_of_range(&v, a, b)),
        None => None,
    }
}

/// Split of a file name at its last `.`: `Some(position)` when the name has
/// an extension in std's sense.
fn dot_split(v: &Vec<char>) -> (r: Option<usize>)
    ensures
        match r {
            Some(d) => d < v.len() && has_char(v@, '.') && last_dot(v@) == d && d > 0,
            None => !(has_char(v@, '.') && last_dot(v@) > 0),
        },
{
    proof {
        assert(v@.take(v.len() as int) == v@);
        lemma_after_last_len(v@, '.');
    }
    let k = after_last_start(v, v.len(), '.');
    proof {
        assert(v@.subrange(k as int, v.len() as int) == v@.skip(k as int));
    }
    if k >= 2 {
        Some(k - 1)
    } else {
        None
    }
}

/// The extension of a file name (the std rule applied to the final component).
pub fn name_extension(name: &str) -> (res: Option<String>)
    ensures
        res.deep_view() == extension_of_name(name@),
{
    let v = chars_of(name);
    proof {
        lemma_after_last_len(v@, '.');
    }
    match dot_split(&v) {
        Some(d) => {
            proof {
                assert(v@.subrange(d + 1, v.len() as int) == v@.skip(d + 1));
            }
            Some(string_of_range(&v, d + 1, v.len()))
        },
        None => None,
    }
}

/// The stem of a file name (the std rule applied to the final component).
pub fn name_stem(name: &str) -> (res: String)
    ensures
        res@ == stem_of_name(name@),
{
    let v = chars_of(name);
    match dot_split(&v) {
        Some(d) => {
            proof {
                assert(v@.subrange(0, d as int) == v@.take(d as int));
            }
            string_of_range(&v, 0, d)
        },
        None => {
            proof {
                assert(v@.subrange(0, v.len() as int) == v@);
            }
            string_of_range(&v, 0, v.len())
        },
    }
}

/// The extension of `path` (std `Path::extension`).
pub fn path_extension(path: &str) -> (res: Option<String>)
    ensures
        res.deep_view() == extension_of(path@),
{
    match file_name(path) {
        Some(name) => name_extension(&name),
        None => None,
    }
}

/// The stem of `path` (std `Path::file_stem`).
pub fn path_stem(path: &str) -> (res: Option<String>)
    ensures
        res.deep_view() == stem_of(path@),
{
    match file_name(path) {
        Some(name) => Some(name_stem(&name)),
        None => None,
    }
}

/// Whether `path` is absolute (std `Path::is_absolute` on Unix).
pub fn is_absolute(path: &str) -> (res: bool)
    ensures
        res == is_absolute_path(path@),
{
    let v = chars_of(path);
    v.len() > 0 && v[0] == '/'
}

/// The `/`-separated pieces of a path, in order; a path without `/` is a
/// single piece, and a `/` at either end gives an empty piece there.
pub open spec fn path_pieces(p: Seq<char>) -> Seq<Seq<char>>
    decreases p.len(),
{
    if p.len() == 0 {
        seq![Seq::<char>::empty()]
    } else {
        let s = path_pieces(p.drop_last());
        if p.last() == '/' {
            s.push(Seq::<char>::empty())
        } else {
            s.update(s.len() - 1, s.last().push(p.last()))
        }
    }
}

/// The pieces that are components of the path: the empty pieces (from
/// repeated, leading or trailing `/`) and `.` anywhere but first are left out.
pub open spec fn kept_pieces(ps: Seq<Seq<char>>) -> Seq<Seq<char>>
    decreases ps.len(),
{
    if ps.len() == 0 {
        Seq::empty()
    } else {
        let rest = kept_pieces(ps.drop_last());
        let x = ps.last();
        if x.len() == 0 || (x == seq!['.'] && ps.len() > 1) {
            rest
        } else {
            rest.push(x)
        }
    }
}

/// Pieces written one after the other with `/` between them.
pub open spec fn joined_pieces(ps: Seq<Seq<char>>) -> Seq<char>
    decreases ps.len(),
{
    if ps.len() == 0 {
        Seq::empty()
    } else if ps.len() == 1 {
        ps[0]
    } else {
        joined_pieces(ps.drop_last()) + seq!['/'] + ps.last()
    }
}

/// A path written by its components, the way std's `Path` compares paths
/// on Unix: a leading `/` for the root, then the components separated by a
/// single `/`. Two paths are equal as `Path`s exactly when these agree.
pub open spec fn path_key_of(p: Seq<char>) -> Seq<char> {
    (if is_absolute_path(p) {
        seq!['/']
    } else {
        Seq::<char>::empty()
    }) + joined_pieces(kept_pieces(path_pieces(p)))
}

proof fn lemma_pieces_nonempty(p: Seq<char>)
    ensures
        path_pieces(p).len() >= 1,
    decreases p.len(),
{
    if p.len() > 0 {
        lemma_pieces_nonempty(p.drop_last());
    }
}

proof fn lemma_pieces_step(v: Seq<char>, i: int)
    requires
        0 <= i < v.len(),
    ensures
        path_pieces(v.take(i)).len() >= 1,
        v[i] == '/' ==> path_pieces(v.take(i + 1)) == path_pieces(v.take(i)).push(Seq::<char>::empty()),
        v[i] == '/' ==> path_pieces(v.take(i + 1)).drop_last() == path_pieces(v.take(i)),
        v[i] != '/' ==> path_pieces(v.take(i + 1)).len() == path_pieces(v.take(i)).len(),
        v[i] != '/' ==> path_pieces(v.take(i + 1)).drop_last() == path_pieces(v.take(i)).drop_last(),
        v[i] != '/' ==> path_pieces(v.take(i + 1)).last() == path_pieces(v.take(i)).last().push(v[i]),
{
    let q = v.take(i + 1);
    assert(q.drop_last() =~= v.take(i));
    lemma_pieces_nonempty(v.take(i));
    let ps = path_pieces(v.take(i));
    if v[i] == '/' {
        assert(path_pieces(q).drop_last() =~= ps);
    } else {
        assert(path_pieces(q).drop_last() =~= ps.drop_last());
    }
}

proof fn lemma_kept_step(ps: Seq<Seq<char>>, x: Seq<char>)
    ensures
        kept_pieces(ps.push(x)) == if x.len() == 0 || (x == seq!['.'] && ps.len() > 0) {
            kept_pieces(ps)
        } else {
            kept_pieces(ps).push(x)
        },
{
    assert(ps.push(x).drop_last() =~= ps);
}

proof fn lemma_joined_step(k: Seq<Seq<char>>, x: Seq<char>)
    ensures
        joined_pieces(k.push(x)) == if k.len() == 0 {
            x
        } else {
            joined_pieces(k) + seq!['/'] + x
        },
{
    assert(k.push(x).drop_last() =~= k);
}

/// The component form of `path`, under which equal paths are stored alike.
#[verifier::spinoff_prover]
pub fn path_key(path: &str) -> (res: String)
    ensures
        res@ == path_key_of(path@),
{
    let v = chars_of(path);
    let mut out: Vec<char> = Vec::new();
    if v.len() > 0 && v[0] == '/' {
        out.push('/');
    }
    let ghost lead = out@;
    let mut any = false;
    let mut first = true;
    let mut start: usize = 0;
    let mut i: usize = 0;
    proof {
        assert(v@.take(0) =~= Seq::<char>::empty());
        assert(v@.subrange(0, 0) =~= Seq::<char>::empty());
        assert(out@ =~= lead + joined_pieces(kept_pieces(path_pieces(v@.take(0)).drop_last())));
    }
    loop
        invariant
            v@ == path@,
            start <= i <= v.len(),
            lead == (if is_absolute_path(path@) { seq!['/'] } else { Seq::<char>::empty() }),
            path_pieces(v@.take(i as int)).len() >= 1,
            path_pieces(v@.take(i as int)).last() == v@.subrange(start as int, i as int),
            first == (path_pieces(v@.take(i as int)).len() == 1),
            any == (kept_pieces(path_pieces(v@.take(i as int)).drop_last()).len() > 0),
            out@ == lead + joined_pieces(kept_pieces(path_pieces(v@.take(i as int)).drop_last())),
        decreases v.len() - i,
    {
        let ghost ps = path_pieces(v@.take(i as int));
        let ghost k0 = kept_pieces(ps.drop_last());
        let at_end = i == v.len();
        let boundary = at_end || v[i] == '/';
        if boundary {
            let piece_len = i - start;
            let keep = piece_len > 0 && !(piece_len == 1 && v[start] == '.' && !first);
            proof {
                let x = ps.last();
                assert(ps.drop_last().push(x) =~= ps);
                lemma_kept_step(ps.drop_last(), x);
                lemma_joined_step(k0, x);
                if piece_len == 1 {
                    assert(x[0] == v[start as int]);
                    if v[start as int] == '.' {
                        assert(x =~= seq!['.']);
                    } else {
                        assert(x[0] != seq!['.'][0]);
                    }
                }
                if piece_len != 1 && piece_len > 0 {
                    assert(x.len() != 1);
                }
                assert(keep == !(x.len() == 0 || (x == seq!['.'] && ps.drop_last().len() > 0)));
            }
            let ghost before_out = out@;
            if keep {
                if any {
                    out.push('/');
                }
                let ghost base = out@;
                let mut j = start;
                while j < i
                    invariant
                        start <= j <= i <= v.len(),
                        out@ == base + v@.subrange(start as int, j as int),
                    decreases i - j,
                {
                    out.push(v[j]);
                    proof {
                        assert(v@.subrange(start as int, j + 1) =~= v@.subrange(start as int, j as int).push(
                            v[j as int],
                        ));
                    }
                    j = j + 1;
                }
                any = true;
                proof {
                    assert(out@ =~= lead + joined_pieces(kept_pieces(ps)));
                }
            }
            if at_end {
                proof {
                    assert(v@.take(i as int) =~= v@);
                }
                return string_of(&out);
            }
            proof {
                lemma_pieces_step(v@, i as int);
                assert(v@.subrange(i + 1, i + 1) =~= Seq::<char>::empty());
            }
            first = false;
            i = i + 1;
            start = i;
        } else {
            proof {
                lemma_pieces_step(v@, i as int);
                assert(v@.subrange(start as int, i + 1) =~= v@.subrange(start as int, i as int).push(v[i as int]));
            }
            i = i + 1;
        }
    }
}

/// Whether a path begins with a `.` component of its own (`.` alone or
/// followed by `/`), which std keeps as the first component of a relative
/// path.
pub open spec fn starts_with_cur_dir(p: Seq<char>) -> bool {
    !is_absolute_path(p) && p.len() > 0 && p[0] == '.' && (p.len() == 1 || p[1] == '/')
}

/// Where the body of a path starts: after the root `/` or a leading `.`.
pub open spec fn body_start(p: Seq<char>) -> int {
    if is_absolute_path(p) || starts_with_cur_dir(p) {
        1
    } else {
        0
    }
}

/// The end of `p[..e]` once trailing separators and `.` pieces of the body
/// (from `s` on) are taken off.
pub open spec fn trimmed_end(p: Seq<char>, s: int, e: int) -> int
    decreases e - s,
{
    if e <= s {
        s
    } else if p[e - 1] == '/' || (p[e - 1] == '.' && (e - 1 == s || p[e - 2] == '/')) {
        trimmed_end(p, s, e - 1)
    } else {
        e
    }
}

/// Where the last piece of the body `p[s..e]` begins.
pub open spec fn piece_start(p: Seq<char>, s: int, e: int) -> int
    decreases e - s,
{
    if e <= s {
        s
    } else if p[e - 1] == '/' {
        e
    } else {
        piece_start(p, s, e - 1)
    }
}

/// The parent of a path as std's `Path::parent` gives it on Unix: the path
/// up to its last component, without the separators and `.` pieces before
/// it; the empty path for a single relative component; nothing for the root
/// or the empty path.
pub open spec fn parent_of(p: Seq<char>) -> Option<Seq<char>> {
    let s = body_start(p);
    let e = trimmed_end(p, s, p.len() as int);
    if e > s {
        Some(p.take(trimmed_end(p, s, piece_start(p, s, e))))
    } else if starts_with_cur_dir(p) {
        Some(Seq::empty())
    } else {
        None
    }
}

proof fn lemma_trimmed_end_range(p: Seq<char>, s: int, e: int)
    requires
        s <= e,
    ensures
        s <= trimmed_end(p, s, e) <= e,
    decreases e - s,
{
    if e > s && (p[e - 1] == '/' || (p[e - 1] == '.' && (e - 1 == s || p[e - 2] == '/'))) {
        lemma_trimmed_end_range(p, s, e - 1);
    }
}

proof fn lemma_piece_start_range(p: Seq<char>, s: int, e: int)
    requires
        s <= e,
    ensures
        s <= piece_start(p, s, e) <= e,
    decreases e - s,
{
    if e > s && p[e - 1] != '/' {
        lemma_piece_start_range(p, s, e - 1);
    }
}

fn trim_body_end(v: &Vec<char>, s: usize, e: usize) -> (r: usize)
    requires
        s <= e <= v.len(),
    ensures
        r == trimmed_end(v@, s as int, e as int),
        s <= r <= e,
{
    let mut k = e;
    while k > s && (v[k - 1] == '/' || (v[k - 1] == '.' && (k - 1 == s || v[k - 2] == '/')))
        invariant
            s <= k <= e <= v.len(),
            trimmed_end(v@, s as int, k as int) == trimmed_end(v@, s as int, e as int),
        decreases k,
    {
        k = k - 1;
    }
    k
}

fn body_piece_start(v: &Vec<char>, s: usize, e: usize) -> (r: usize)
    requires
        s <= e <= v.len(),
    ensures
        r == piece_start(v@, s as int, e as int),
        s <= r <= e,
{
    let mut k = e;
    while k > s && v[k - 1] != '/'
        invariant
            s <= k <= e <= v.len(),
            piece_start(v@, s as int, k as int) == piece_start(v@, s as int, e as int),
        decreases k,
    {
        k = k - 1;
    }
    k
}

/// A path joined onto a base, as std's `Path::join` does on Unix: an
/// absolute path replaces the base; otherwise a `/` goes between the two
/// unless the base is empty or already ends in `/`.
pub open spec fn joined_path(base: Seq<char>, path: Seq<char>) -> Seq<char> {
    if is_absolute_path(path) {
        path
    } else if base.len() == 0 || base.last() == '/' {
        base + path
    } else {
        base + seq!['/'] + path
    }
}

/// A path with its file name replaced, as std's `Path::with_file_name`
/// gives it: the name joined onto the parent when the path has a file name
/// (and a parent), else onto the path itself.
pub open spec fn with_file_name_of(path: Seq<char>, name: Seq<char>) -> Seq<char> {
    match (file_name_of(path), parent_of(path)) {
        (Some(_), Some(q)) => joined_path(q, name),
        _ => joined_path(path, name),
    }
}

/// The parent of `path` (std `Path::parent`), as a string.
pub fn path_parent(path: &str) -> (res: Option<String>)
    ensures
        res.deep_view() == parent_of(path@),
{
    let v = chars_of(path);
    let n = v.len();
    let root = n > 0 && v[0] == '/';
    let cur = !root && n > 0 && v[0] == '.' && (n == 1 || v[1] == '/');
    let s: usize = if root || cur {
        1
    } else {
        0
    };
    let e = trim_body_end(&v, s, n);
    if e > s {
        let b = body_piece_start(&v, s, e);
        let t = trim_body_end(&v, s, b);
        proof {
            assert(v@.subrange(0, t as int) =~= v@.take(t as int));
        }
        Some(string_of_range(&v, 0, t))
    } else if cur {
        Some(String::new())
    } else {
        None
    }
}

/// `path` joined onto `base`, with `/` as the separator.
pub fn path_join(base: &str, path: &str) -> (res: String)
    ensures
        res@ == joined_path(base@, path@),
{
    if is_absolute(path) {
        return path.to_owned();
    }
    let b = chars_of(base);
    let mut s = base.to_owned();
    if b.len() > 0 && b[b.len() - 1] != '/' {
        push_char(&mut s, '/');
    }
    push_all(&mut s, path);
    proof {
        if b.len() > 0 && b[b.len() - 1] != '/' {
            assert(s@ =~= base@ + seq!['/'] + path@);
        }
    }
    s
}

/// `path` with its file name replaced by `name` (std `Path::with_file_name`).
pub fn path_with_file_name(path: &str, name: &str) -> (res: String)
    ensures
        res@ == with_file_name_of(path@, name@),
{
    let base = match file_name(path) {
        Some(_) => match path_parent(path) {
            Some(q) => q,
            None => path.to_owned(),
        },
        None => path.to_owned(),
    };
    path_join(&base, name)
}

/// Whether two paths are the same path: the same components (std's `==`
/// on `Path`s, on Unix).
pub fn paths_equal(a: &str, b: &str) -> (res: bool)
    ensures
        res == (path_key_of(a@) == path_key_of(b@)),
{
    let ka = chars_of(&path_key(a));
    let kb = chars_of(&path_key(b));
    chars_eq(&ka, &kb)
}

} // verus!
