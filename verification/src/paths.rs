//! Paths as text: `/` separates components, a leading `/` is the root, and empty
//! components and `.` carry no meaning (but for a `.` that begins a relative
//! path).
use crate::text;
use crate::text::{substring, to_chars};
use crate::lists;
use vstd::prelude::*;

verus! {

/// Whether `p` begins at the root.
pub open spec fn absolute(p: Seq<char>) -> bool {
    p.len() > 0 && p[0] == '/'
}

/// Whether `p` begins at the root.
pub fn is_absolute(p: &str) -> (res: bool)
    ensures
        res == absolute(p@),
{
    let chars = to_chars(p);
    chars.len() > 0 && chars[0] == '/'
}

/// The path `p` as seen from the directory `base`.
pub open spec fn joined_path(base: Seq<char>, p: Seq<char>) -> Seq<char> {
    if absolute(p) {
        p
    } else if base.len() == 0 || base.last() == '/' {
        base + p
    } else {
        base.push('/') + p
    }
}

/// The path `p` as seen from the directory `base`: `p` itself when absolute,
/// else `base`, one separator and `p`.
pub fn join_path(base: &str, p: &str) -> (res: String)
    ensures
        res@ == joined_path(base@, p@),
{
    if is_absolute(p) {
        return p.to_owned();
    }
    let chars = to_chars(base);
    let mut out = base.to_owned();
    if chars.len() > 0 && chars[chars.len() - 1] != '/' {
        out.push('/');
    }
    out.append(p);
    out
}

/// `p` without the separators and `.` components at its end.
pub open spec fn trim_tail(p: Seq<char>) -> Seq<char>
    decreases p.len(),
{
    if p.len() > 1 && p.last() == '/' {
        trim_tail(p.drop_last())
    } else if p.len() > 1 && p.last() == '.' && p[p.len() - 2] == '/' {
        trim_tail(p.drop_last())
    } else {
        p
    }
}

/// `trim_tail` keeps a prefix, and it does not end in a separator unless it is
/// the root.
pub proof fn lemma_trim_tail(p: Seq<char>)
    ensures
        trim_tail(p).len() <= p.len(),
        trim_tail(p) == p.take(trim_tail(p).len() as int),
        p.len() > 0 ==> trim_tail(p).len() > 0,
        trim_tail(p).len() > 1 ==> trim_tail(p).last() != '/',
    decreases p.len(),
{
    if p.len() > 1 && (p.last() == '/' || (p.last() == '.' && p[p.len() - 2] == '/')) {
        lemma_trim_tail(p.drop_last());
        assert(trim_tail(p) =~= p.take(trim_tail(p).len() as int));
    } else {
        assert(p =~= p.take(p.len() as int));
    }
}

fn tail_end(chars: &Vec<char>, end: usize) -> (res: usize)
    requires
        end <= chars@.len(),
    ensures
        res <= end,
        chars@.take(res as int) == trim_tail(chars@.take(end as int)),
        end > 0 ==> res > 0,
{
    let mut n: usize = end;
    while n > 1 && (chars[n - 1] == '/' || (chars[n - 1] == '.' && chars[n - 2] == '/'))
        invariant
            n <= end <= chars@.len(),
            end > 0 ==> n > 0,
            trim_tail(chars@.take(n as int)) == trim_tail(chars@.take(end as int)),
        decreases n,
    {
        assert(chars@.take(n as int).drop_last() =~= chars@.take(n - 1));
        n -= 1;
    }
    n
}

/// The number of characters up to and with the last `/` of `p`; zero without one.
pub open spec fn last_slash(p: Seq<char>) -> int
    decreases p.len(),
{
    if p.len() == 0 {
        0
    } else if p.last() == '/' {
        p.len() as int
    } else {
        last_slash(p.drop_last())
    }
}

/// `last_slash` counts a prefix that ends in `/` or is empty.
pub proof fn lemma_last_slash(p: Seq<char>)
    ensures
        0 <= last_slash(p) <= p.len(),
        last_slash(p) > 0 ==> p[last_slash(p) - 1] == '/',
        forall|k: int| last_slash(p) <= k < p.len() ==> p[k] != '/',
    decreases p.len(),
{
    if p.len() > 0 && p.last() != '/' {
        lemma_last_slash(p.drop_last());
        assert forall|k: int| last_slash(p) <= k < p.len() implies p[k] != '/' by {
            if k < p.len() - 1 {
                assert(p.drop_last()[k] == p[k]);
            }
        }
    }
}

fn slash_end(chars: &Vec<char>, end: usize) -> (res: usize)
    requires
        end <= chars@.len(),
    ensures
        res == last_slash(chars@.take(end as int)),
        res <= end,
{
    let mut n: usize = end;
    while n > 0 && chars[n - 1] != '/'
        invariant
            n <= end <= chars@.len(),
            last_slash(chars@.take(n as int)) == last_slash(chars@.take(end as int)),
        decreases n,
    {
        assert(chars@.take(n as int).drop_last() =~= chars@.take(n - 1));
        n -= 1;
    }
    n
}

/// The path without its last component; none for the root and the empty path.
pub open spec fn parent_of(p: Seq<char>) -> Option<Seq<char>> {
    let t = trim_tail(p);
    if t.len() == 0 || (t.len() == 1 && t[0] == '/') {
        None
    } else {
        Some(trim_tail(t.take(last_slash(t))))
    }
}

/// The path without its last component; none for the root and the empty path.
pub fn parent(p: &str) -> (res: Option<String>)
    ensures
        res.deep_view() == parent_of(p@),
{
    let chars = to_chars(p);
    let end: usize = tail_end(&chars, chars.len());
    proof {
        assert(chars@.take(chars@.len() as int) =~= p@);
    }
    if end == 0 || (end == 1 && chars[0] == '/') {
        return None;
    }
    let cut: usize = slash_end(&chars, end);
    let stop: usize = tail_end(&chars, cut);
    let out = substring(&chars, 0, stop);
    proof {
        let t = chars@.take(end as int);
        assert(t.take(cut as int) =~= chars@.take(cut as int));
        assert(out@ =~= chars@.take(stop as int));
    }
    Some(out)
}

/// The parent of a path is shorter than the path.
pub proof fn lemma_parent_is_shorter(p: Seq<char>)
    requires
        parent_of(p) is Some,
    ensures
        parent_of(p)->0.len() < p.len(),
{
    let t = trim_tail(p);
    lemma_trim_tail(p);
    lemma_last_slash(t);
    lemma_trim_tail(t.take(last_slash(t)));
}

/// The last component of `p`, unless it is the root, `.` or `..`.
pub open spec fn file_name_of(p: Seq<char>) -> Option<Seq<char>> {
    let t = trim_tail(p);
    let name = t.skip(last_slash(t));
    if name.len() == 0 || name == seq!['.'] || name == seq!['.', '.'] {
        None
    } else {
        Some(name)
    }
}

/// The last component of `p`, unless it is the root, `.` or `..`.
pub fn file_name(p: &str) -> (res: Option<String>)
    ensures
        res.deep_view() == file_name_of(p@),
{
    let chars = to_chars(p);
    let end: usize = tail_end(&chars, chars.len());
    let cut: usize = slash_end(&chars, end);
    let name = substring(&chars, cut, end);
    proof {
        assert(chars@.take(chars@.len() as int) =~= p@);
        assert(name@ =~= chars@.take(end as int).skip(cut as int));
        reveal_strlit(".");
        reveal_strlit("..");
        assert("."@ =~= seq!['.']);
        assert(".."@ =~= seq!['.', '.']);
    }
    if name.as_str().is_empty() || *name.as_str() == *"." || *name.as_str() == *".." {
        None
    } else {
        Some(name)
    }
}

/// Whether the piece at place `i` of a path's `/`-separated pieces is a component.
pub open spec fn counts(piece: Seq<char>, i: int) -> bool {
    piece.len() > 0 && (piece != seq!['.'] || i == 0)
}

/// The first `n` pieces that are components, in order.
pub open spec fn kept_pieces(pieces: Seq<Seq<char>>, n: nat) -> Seq<Seq<char>>
    decreases n,
{
    if n == 0 {
        seq![]
    } else {
        let rest = kept_pieces(pieces, (n - 1) as nat);
        if counts(pieces[n - 1], n - 1) {
            rest.push(pieces[n - 1])
        } else {
            rest
        }
    }
}

/// The components of `p`: the root as `/`, then the names. Two paths are the
/// same when their components are.
pub open spec fn components_of(p: Seq<char>) -> Seq<Seq<char>> {
    let pieces = text::pieces(p, '/');
    let names = kept_pieces(pieces, pieces.len());
    if absolute(p) {
        seq![seq!['/']] + names
    } else {
        names
    }
}

/// The components of `p`.
pub fn components(p: &str) -> (res: Vec<String>)
    ensures
        res.deep_view() == components_of(p@),
{
    let pieces = text::split(p, '/');
    let mut out: Vec<String> = Vec::new();
    let ghost all = pieces.deep_view();
    let rooted = is_absolute(p);
    proof {
        reveal_strlit(".");
        assert("."@ =~= seq!['.']);
        reveal_strlit("/");
        assert("/"@ =~= seq!['/']);
    }
    let ghost head: Seq<Seq<char>> = if rooted {
        seq![seq!['/']]
    } else {
        seq![]
    };
    if rooted {
        out.push("/".to_owned());
    }
    assert(out.deep_view() =~= head + kept_pieces(all, 0));
    let mut i: usize = 0;
    while i < pieces.len()
        invariant
            i <= pieces@.len(),
            all == pieces.deep_view(),
            "."@ == seq!['.'],
            out.deep_view() == head + kept_pieces(all, i as nat),
        decreases pieces@.len() - i,
    {
        let ghost before = out.deep_view();
        let piece = pieces[i].as_str();
        assert(all[i as int] == piece@);
        if !piece.is_empty() && (*piece != *"." || i == 0) {
            out.push(pieces[i].clone());
            assert(out.deep_view() =~= before.push(all[i as int]));
            assert((head + kept_pieces(all, i as nat)).push(all[i as int]) =~= head + kept_pieces(
                all,
                i as nat,
            ).push(all[i as int]));
        }
        i += 1;
    }
    out
}

/// Whether two lists hold the same texts.
pub fn same_texts(a: &Vec<String>, b: &Vec<String>) -> (res: bool)
    ensures
        res == (a.deep_view() == b.deep_view()),
{
    if a.len() != b.len() {
        assert(a.deep_view().len() != b.deep_view().len());
        return false;
    }
    let mut i: usize = 0;
    while i < a.len()
        invariant
            i <= a@.len(),
            a@.len() == b@.len(),
            forall|k: int| 0 <= k < i ==> a@[k]@ == b@[k]@,
        decreases a@.len() - i,
    {
        if *a[i].as_str() != *b[i].as_str() {
            assert(a.deep_view()[i as int] != b.deep_view()[i as int]);
            return false;
        }
        i += 1;
    }
    assert(a.deep_view() =~= b.deep_view());
    true
}

/// Whether `a` and `b` name the same path, component by component.
pub fn same_path(a: &str, b: &str) -> (res: bool)
    ensures
        res == (components_of(a@) == components_of(b@)),
{
    let x = components(a);
    let y = components(b);
    same_texts(&x, &y)
}

/// The names of the components of `p` below `base`, joined by `/`, when `base`
/// leads to `p`.
pub open spec fn below(p: Seq<char>, base: Seq<char>) -> Option<Seq<char>> {
    let c = components_of(p);
    let b = components_of(base);
    if b.is_prefix_of(c) {
        Some(text::joined(c.skip(b.len() as int), "/"@))
    } else {
        None
    }
}

/// The path of `p` relative to `base`, when `base` leads to `p`.
pub fn strip_base(p: &str, base: &str) -> (res: Option<String>)
    ensures
        res.deep_view() == below(p@, base@),
{
    let c = components(p);
    let b = components(base);
    if b.len() > c.len() {
        return None;
    }
    let mut i: usize = 0;
    while i < b.len()
        invariant
            i <= b@.len() <= c@.len(),
            b.deep_view() == components_of(base@),
            c.deep_view() == components_of(p@),
            forall|k: int| 0 <= k < i ==> b@[k]@ == c@[k]@,
        decreases b@.len() - i,
    {
        if *b[i].as_str() != *c[i].as_str() {
            assert(b.deep_view()[i as int] != c.deep_view()[i as int]);
            return None;
        }
        i += 1;
    }
    assert(b.deep_view() =~= c.deep_view().take(b@.len() as int));
    let mut rest: Vec<String> = Vec::new();
    while i < c.len()
        invariant
            b@.len() <= i <= c@.len(),
            rest.deep_view() == c.deep_view().subrange(b@.len() as int, i as int),
        decreases c@.len() - i,
    {
        let ghost before = rest.deep_view();
        rest.push(c[i].clone());
        assert(rest.deep_view() =~= before.push(c@[i as int]@));
        assert(c.deep_view().subrange(b@.len() as int, i + 1) =~= before.push(c@[i as int]@));
        i += 1;
    }
    assert(rest.deep_view() =~= components_of(p@).skip(b@.len() as int));
    Some(text::join(&rest, "/"))
}

/// A relative path is taken from a directory: the result begins with the directory,
/// ends with the path, and has one separator between them. An absolute path, and a
/// path from nowhere, is itself.
pub proof fn law_joined_paths_hold_both(base: Seq<char>, p: Seq<char>)
    ensures
        ({
            let both = joined_path(base, p);
            let rooted = p.len() > 0 && p[0] == '/';
            &&& rooted || base.len() == 0 ==> both == p
            &&& !rooted && base.len() > 0 && base.last() == '/' ==> both.len() == base.len()
                + p.len() && both.take(base.len() as int) == base && both.skip(base.len() as int)
                == p
            &&& !rooted && base.len() > 0 && base.last() != '/' ==> both.len() == base.len() + 1
                + p.len() && both.take(base.len() as int) == base && both[base.len() as int] == '/'
                && both.skip(base.len() as int + 1) == p
        }),
{
    let both = joined_path(base, p);
    if !absolute(p) && base.len() == 0 {
        assert(both =~= p);
    } else if !absolute(p) && base.last() == '/' {
        assert(both.take(base.len() as int) =~= base);
        assert(both.skip(base.len() as int) =~= p);
    } else if !absolute(p) {
        assert(both.take(base.len() as int) =~= base);
        assert(both.skip(base.len() as int + 1) =~= p);
    }
}

/// A name in a directory has the directory as its parent and the name as its file
/// name.
pub proof fn law_parent_and_name_undo_joining(dir: Seq<char>, name: Seq<char>)
    requires
        dir.len() > 0,
        dir.last() != '/',
        !(dir.len() > 1 && dir.last() == '.' && dir[dir.len() - 2] == '/'),
        name.len() > 0,
        !name.contains('/'),
        name != seq!['.'],
    ensures
        parent_of(joined_path(dir, name)) == Some(dir),
        name != seq!['.', '.'] ==> file_name_of(joined_path(dir, name)) == Some(name),
{
    let p = joined_path(dir, name);
    assert(name[0] != '/') by {
        assert(name.contains(name[0]));
    }
    assert(p =~= dir.push('/') + name);
    assert(p.last() == name.last());
    assert(name.contains(name.last()));
    if p.last() == '.' && p[p.len() - 2] == '/' {
        if name.len() > 1 {
            assert(p[p.len() - 2] == name[name.len() - 2]);
            assert(name.contains(name[name.len() - 2]));
        } else {
            assert(name =~= seq!['.']);
        }
    }
    assert(trim_tail(p) == p);
    lemma_last_slash_at(dir, name);
    let up = dir.push('/');
    assert(p.take(last_slash(p)) =~= up);
    assert(up.drop_last() =~= dir);
    assert(trim_tail(dir) == dir);
    assert(trim_tail(up) == trim_tail(up.drop_last()));
    assert(p.skip(last_slash(p)) =~= name);
    assert(p.len() > 1);
}

proof fn lemma_last_slash_at(dir: Seq<char>, name: Seq<char>)
    requires
        !name.contains('/'),
    ensures
        last_slash(dir.push('/') + name) == dir.len() + 1,
    decreases name.len(),
{
    let p = dir.push('/') + name;
    if name.len() == 0 {
        assert(p.last() == '/');
    } else {
        assert(p.last() == name.last());
        assert(name.contains(name.last()));
        let rest = name.drop_last();
        assert(!rest.contains('/')) by {
            if rest.contains('/') {
                let i = rest.index_of('/');
                assert(name[i] == '/');
            }
        }
        lemma_last_slash_at(dir, rest);
        assert(p.drop_last() =~= dir.push('/') + rest);
    }
}

/// The components of a relative path are what stands between its separators, in order,
/// but for nothing and for a `.` that does not begin it; an absolute path has the root
/// before them.
pub proof fn law_components_are_the_names_of_a_path(p: Seq<char>)
    ensures
        ({
            let parts = text::pieces(p, '/');
            let names = if absolute(p) {
                components_of(p).drop_first()
            } else {
                components_of(p)
            };
            &&& absolute(p) ==> components_of(p).len() > 0 && components_of(p)[0] == seq!['/']
            &&& lists::selects(
                names,
                |i: int| parts[i],
                |i: int| parts[i].len() > 0 && (i == 0 || parts[i] != seq!['.']),
                parts.len(),
            )
        }),
{
    let parts = text::pieces(p, '/');
    lemma_kept_pieces(parts, parts.len());
    if absolute(p) {
        assert(components_of(p).drop_first() =~= kept_pieces(parts, parts.len()));
    }
}

proof fn lemma_kept_pieces(parts: Seq<Seq<char>>, n: nat)
    requires
        n <= parts.len(),
    ensures
        lists::selects(
            kept_pieces(parts, n),
            |i: int| parts[i],
            |i: int| parts[i].len() > 0 && (i == 0 || parts[i] != seq!['.']),
            n,
        ),
    decreases n,
{
    let value = |i: int| parts[i];
    let keep = |i: int| parts[i].len() > 0 && (i == 0 || parts[i] != seq!['.']);
    if n == 0 {
        lists::lemma_selects_none(value, keep);
    } else {
        let m = (n - 1) as nat;
        lemma_kept_pieces(parts, m);
        lists::lemma_selects_next(kept_pieces(parts, m), value, keep, m);
    }
}

/// A path lies below a base exactly where the components of the base begin its own, and
/// what is left of it are the other components, in order, with `/` between them. So
/// nothing is left of a path below itself.
pub proof fn law_paths_below_a_base(p: Seq<char>, base: Seq<char>)
    ensures
        ({
            let c = components_of(p);
            let b = components_of(base);
            &&& below(p, base) is Some <==> b.len() <= c.len() && forall|i: int|
                0 <= i < b.len() ==> #[trigger] b[i] == c[i]
            &&& below(p, base) is Some ==> below(p, base)->0 == text::joined(
                c.subrange(b.len() as int, c.len() as int),
                seq!['/'],
            )
            &&& below(p, p) == Some(Seq::<char>::empty())
        }),
{
    reveal_strlit("/");
    let c = components_of(p);
    let b = components_of(base);
    assert("/"@ =~= seq!['/']);
    if b.is_prefix_of(c) {
        assert(c.skip(b.len() as int) =~= c.subrange(b.len() as int, c.len() as int));
        assert forall|i: int| 0 <= i < b.len() implies #[trigger] b[i] == c[i] by {
            assert(c.take(b.len() as int)[i] == c[i]);
        }
    } else if b.len() <= c.len() && forall|i: int| 0 <= i < b.len() ==> #[trigger] b[i] == c[i] {
        assert(c.take(b.len() as int) =~= b);
    }
    assert(c.is_prefix_of(c));
    assert(c.skip(c.len() as int) =~= Seq::<Seq<char>>::empty());
    assert(text::joined(Seq::<Seq<char>>::empty(), "/"@) =~= Seq::<char>::empty());
}

} // verus!
