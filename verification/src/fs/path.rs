//! The file-system paths the server handles, as character sequences with the
//! meaning that `std::path` gives them on Unix: `/` separates components, a
//! leading `/` is the root.
//!
//! The functions here compute what `PathBuf::push`, `Path::components`,
//! `Path::file_name` and `Path::extension` compute for such paths.
use vstd::prelude::*;
use crate::text::{chars_eq, string_of};

verus! {

/// The pieces of `p` between `/` separators, empty pieces included
/// (`"a//b/"` gives `["a", "", "b", ""]`).
pub open spec fn split_slash(p: Seq<char>) -> Seq<Seq<char>>
    decreases p.len(),
{
    if p.len() == 0 {
        seq![Seq::<char>::empty()]
    } else {
        let init = split_slash(p.drop_last());
        if p.last() == '/' {
            init.push(Seq::<char>::empty())
        } else {
            init.update(init.len() - 1, init.last().push(p.last()))
        }
    }
}

/// A piece that becomes a `Normal` (or `ParentDir`) component: not empty, not `.`.
pub open spec fn is_named_piece(s: Seq<char>) -> bool {
    s.len() > 0 && s != seq!['.']
}

/// The root component, rendered as `/`.
pub open spec fn root_component() -> Seq<char> {
    seq!['/']
}

/// The current-directory component, rendered as `.`.
pub open spec fn cur_component() -> Seq<char> {
    seq!['.']
}

/// The components of `p`, each rendered as its text, as `Path::components` gives them:
/// a leading `/` gives a root component `/`; a first piece `.` of a relative path gives
/// a `.` component; after that, every piece that is neither empty nor `.`.
pub open spec fn path_components(p: Seq<char>) -> Seq<Seq<char>> {
    let pieces = split_slash(p);
    let named = pieces.filter(|s: Seq<char>| is_named_piece(s));
    if p.len() > 0 && p[0] == '/' {
        seq![root_component()] + named
    } else if pieces[0] == cur_component() {
        seq![cur_component()] + named
    } else {
        named
    }
}

/// `PathBuf::push`: an absolute `p` replaces `base`; otherwise `p` is appended,
/// with a `/` in between unless `base` is empty or already ends in `/`.
pub open spec fn path_push(base: Seq<char>, p: Seq<char>) -> Seq<char> {
    if p.len() > 0 && p[0] == '/' {
        p
    } else if base.len() > 0 && base.last() != '/' {
        base + seq!['/'] + p
    } else {
        base + p
    }
}

/// `Path::file_name`: the last component, if it is a name (not the root, `.` or `..`).
pub open spec fn file_name(p: Seq<char>) -> Option<Seq<char>> {
    let c = path_components(p);
    if c.len() > 0 && c.last() != root_component() && c.last() != cur_component() && c.last()
        != seq!['.', '.'] {
        Some(c.last())
    } else {
        None
    }
}

/// Index of the last `.` in `s`, or -1.
pub open spec fn last_dot(s: Seq<char>) -> int
    decreases s.len(),
{
    if s.len() == 0 {
        -1
    } else if s.last() == '.' {
        s.len() - 1
    } else {
        last_dot(s.drop_last())
    }
}

/// The extension of a file name: what follows its last `.`, unless it has no `.`,
/// its only `.` is the first character, or it is `..`.
pub open spec fn name_extension(name: Seq<char>) -> Option<Seq<char>> {
    let i = last_dot(name);
    if name == seq!['.', '.'] || i <= 0 {
        None
    } else {
        Some(name.subrange(i + 1, name.len() as int))
    }
}

/// `Path::extension`.
pub open spec fn path_extension(p: Seq<char>) -> Option<Seq<char>> {
    match file_name(p) {
        Some(n) => name_extension(n),
        None => None,
    }
}

proof fn lemma_split_nonempty(p: Seq<char>)
    ensures
        split_slash(p).len() >= 1,
    decreases p.len(),
{
    if p.len() > 0 {
        lemma_split_nonempty(p.drop_last());
    }
}

/// The view of a list of character vectors as a sequence of character sequences.
pub open spec fn seqs_of(v: Seq<Vec<char>>) -> Seq<Seq<char>> {
    v.map_values(|x: Vec<char>| x@)
}

/// The view of a list of strings as a sequence of character sequences.
pub open spec fn strings_view(v: Seq<String>) -> Seq<Seq<char>> {
    v.map_values(|x: String| x@)
}

/// Converts a list of character vectors into a list of strings.
pub fn strings_of(v: &Vec<Vec<char>>) -> (res: Vec<String>)
    ensures
        strings_view(res@) == seqs_of(v@),
{
    let mut res: Vec<String> = Vec::new();
    let mut i: usize = 0;
    while i < v.len()
        invariant
            i <= v.len(),
            strings_view(res@) == seqs_of(v@).take(i as int),
        decreases v.len() - i,
    {
        let s = string_of(v[i].as_slice());
        let ghost old_res = res@;
        res.push(s);
        assert(strings_view(res@) =~= strings_view(old_res).push(v@[i as int]@));
        i += 1;
        assert(strings_view(res@) =~= seqs_of(v@).take(i as int));
    }
    assert(seqs_of(v@).take(v@.len() as int) =~= seqs_of(v@));
    res
}

fn push_piece(res: &mut Vec<Vec<char>>, piece: Vec<char>)
    ensures
        seqs_of(final(res)@) == seqs_of(old(res)@).push(piece@),
{
    let ghost old_res = res@;
    res.push(piece);
    assert(seqs_of(res@) =~= seqs_of(old_res).push(piece@));
}

/// Whether a piece is `.`.
fn is_cur_piece(piece: &Vec<char>) -> (r: bool)
    ensures
        r == (piece@ == cur_component()),
{
    let r = piece.len() == 1 && piece[0] == '.';
    assert(r ==> piece@ =~= cur_component());
    r
}

/// `Path::components` of `p`, each component rendered as its text.
pub fn components_of(p: &[char]) -> (res: Vec<Vec<char>>)
    ensures
        seqs_of(res@) == path_components(p@),
{
    let ghost pred = |s: Seq<char>| is_named_piece(s);
    let mut res: Vec<Vec<char>> = Vec::new();
    let has_root = p.len() > 0 && p[0] == '/';
    if has_root {
        let mut root: Vec<char> = Vec::new();
        root.push('/');
        assert(root@ =~= root_component());
        push_piece(&mut res, root);
        assert(seqs_of(res@) =~= seq![root_component()]);
    }
    let mut cur: Vec<char> = Vec::new();
    let mut first = true;
    let mut i: usize = 0;
    proof {
        assert(p@.take(0) =~= Seq::<char>::empty());
        assert(split_slash(p@.take(0)).drop_last().filter(pred) =~= Seq::<Seq<char>>::empty()) by {
            reveal(Seq::filter);
        }
    }
    while i < p.len()
        invariant
            i <= p.len(),
            has_root == (p@.len() > 0 && p@[0] == '/'),
            pred == (|s: Seq<char>| is_named_piece(s)),
            split_slash(p@.take(i as int)).len() >= 1,
            cur@ == split_slash(p@.take(i as int)).last(),
            first == (split_slash(p@.take(i as int)).len() == 1),
            seqs_of(res@) == (if has_root {
                seq![root_component()]
            } else if !first && split_slash(p@.take(i as int))[0] == cur_component() {
                seq![cur_component()]
            } else {
                Seq::<Seq<char>>::empty()
            }) + split_slash(p@.take(i as int)).drop_last().filter(pred),
        decreases p.len() - i,
    {
        let ghost pieces = split_slash(p@.take(i as int));
        let ghost pre = if has_root {
            seq![root_component()]
        } else if !first && pieces[0] == cur_component() {
            seq![cur_component()]
        } else {
            Seq::<Seq<char>>::empty()
        };
        assert(p@.take(i + 1).drop_last() =~= p@.take(i as int));
        assert(p@.take(i + 1).last() == p@[i as int]);
        proof { lemma_split_nonempty(p@.take(i + 1)); }
        if p[i] == '/' {
            let ghost new_pieces = pieces.push(Seq::<char>::empty());
            assert(split_slash(p@.take(i + 1)) == new_pieces);
            assert(new_pieces.drop_last() =~= pieces);
            assert(pieces =~= pieces.drop_last().push(pieces.last()));
            proof { pieces.drop_last().lemma_filter_push(pieces.last(), pred); }
            if first && !has_root && is_cur_piece(&cur) {
                push_piece(&mut res, cur);
                assert(new_pieces[0] == cur_component());
                assert(pieces.drop_last() =~= Seq::<Seq<char>>::empty());
                assert(seqs_of(res@) =~= seq![cur_component()] + pieces.filter(pred)) by {
                    reveal(Seq::filter);
                }
            } else if cur.len() > 0 && !is_cur_piece(&cur) {
                push_piece(&mut res, cur);
                assert(first ==> pieces.len() == 1);
                assert(first && !has_root ==> new_pieces[0] != cur_component());
                assert(seqs_of(res@) =~= (if has_root {
                    seq![root_component()]
                } else if new_pieces[0] == cur_component() {
                    seq![cur_component()]
                } else {
                    Seq::<Seq<char>>::empty()
                }) + pieces.filter(pred));
            } else {
                assert(first && !has_root ==> new_pieces[0] == cur@);
                assert(seqs_of(res@) =~= (if has_root {
                    seq![root_component()]
                } else if new_pieces[0] == cur_component() {
                    seq![cur_component()]
                } else {
                    Seq::<Seq<char>>::empty()
                }) + pieces.filter(pred));
            }
            cur = Vec::new();
            first = false;
        } else {
            let ghost new_pieces = pieces.update(pieces.len() - 1, pieces.last().push(p@[i as int]));
            assert(split_slash(p@.take(i + 1)) == new_pieces);
            assert(new_pieces.drop_last() =~= pieces.drop_last());
            cur.push(p[i]);
            assert(first ==> new_pieces[0] == new_pieces.last());
            assert(!first ==> new_pieces[0] == pieces[0]);
        }
        i += 1;
    }
    assert(p@.take(p@.len() as int) =~= p@);
    let ghost pieces = split_slash(p@);
    assert(pieces =~= pieces.drop_last().push(pieces.last()));
    proof { pieces.drop_last().lemma_filter_push(pieces.last(), pred); }
    if first && !has_root && is_cur_piece(&cur) {
        push_piece(&mut res, cur);
        assert(pieces.drop_last() =~= Seq::<Seq<char>>::empty());
        assert(seqs_of(res@) =~= seq![cur_component()] + pieces.filter(pred)) by {
            reveal(Seq::filter);
        }
    } else if cur.len() > 0 && !is_cur_piece(&cur) {
        push_piece(&mut res, cur);
    }
    assert(seqs_of(res@) =~= path_components(p@));
    res
}

/// `PathBuf::push` on paths held as strings.
pub fn push_path(base: &mut String, p: &str)
    ensures
        final(base)@ == path_push(old(base)@, p@),
{
    let pc = crate::text::chars_of(p);
    if pc.len() > 0 && pc[0] == '/' {
        *base = string_of(pc.as_slice());
        return;
    }
    let bc = crate::text::chars_of(base.as_str());
    if bc.len() > 0 && bc[bc.len() - 1] != '/' {
        base.push('/');
    }
    crate::text::push_chars(base, pc.as_slice());
}

/// `Path::file_name` of `p`.
pub fn file_name_of(p: &[char]) -> (res: Option<Vec<char>>)
    ensures
        match file_name(p@) {
            Some(n) => res is Some && res->0@ == n,
            None => res is None,
        },
{
    let mut comps = components_of(p);
    let ghost c = path_components(p@);
    if comps.len() == 0 {
        return None;
    }
    let last = comps.pop().unwrap();
    assert(last@ == c.last());
    let is_root = last.len() == 1 && last[0] == '/';
    let is_cur = last.len() == 1 && last[0] == '.';
    let is_parent = last.len() == 2 && last[0] == '.' && last[1] == '.';
    assert(is_root ==> last@ =~= root_component());
    assert(is_cur ==> last@ =~= cur_component());
    assert(is_parent ==> last@ =~= seq!['.', '.']);
    if is_root || is_cur || is_parent {
        None
    } else {
        Some(last)
    }
}

/// The extension of the file name `name` (as `Path::extension` on a one-component path).
pub fn name_extension_of(name: &[char]) -> (res: Option<Vec<char>>)
    ensures
        match name_extension(name@) {
            Some(e) => res is Some && res->0@ == e,
            None => res is None,
        },
{
    let is_parent = name.len() == 2 && name[0] == '.' && name[1] == '.';
    assert(is_parent <==> name@ =~= seq!['.', '.']);
    if is_parent {
        return None;
    }
    let mut i: usize = name.len();
    assert(name@.take(i as int) =~= name@);
    while i > 0
        invariant
            i <= name.len(),
            last_dot(name@) == last_dot(name@.take(i as int)),
            forall|j: int| i <= j < name.len() ==> name@[j] != '.',
        ensures
            i == 0 || name@[i - 1] == '.',
        decreases i,
    {
        assert(name@.take(i as int).drop_last() =~= name@.take(i - 1));
        if name[i - 1] == '.' {
            break;
        }
        i -= 1;
    }
    proof {
        if i == 0 {
            assert(name@.take(0) =~= Seq::<char>::empty());
            assert(last_dot(name@) == -1);
        } else {
            assert(name@.take(i as int).last() == '.');
            assert(last_dot(name@) == i - 1);
        }
    }
    if i <= 1 {
        return None;
    }
    let mut ext: Vec<char> = Vec::new();
    let mut k: usize = i;
    while k < name.len()
        invariant
            i <= k <= name.len(),
            ext@ == name@.subrange(i as int, k as int),
        decreases name.len() - k,
    {
        ext.push(name[k]);
        k += 1;
        assert(ext@ =~= name@.subrange(i as int, k as int));
    }
    Some(ext)
}

/// Whether `a` is a prefix of `b` (component-wise).
fn components_prefix(a: &Vec<Vec<char>>, b: &Vec<Vec<char>>) -> (r: bool)
    ensures
        r == seqs_of(a@).is_prefix_of(seqs_of(b@)),
{
    if a.len() > b.len() {
        return false;
    }
    let mut i: usize = 0;
    while i < a.len()
        invariant
            a.len() <= b.len(),
            i <= a.len(),
            forall|j: int| 0 <= j < i ==> seqs_of(a@)[j] == seqs_of(b@)[j],
        decreases a.len() - i,
    {
        if !chars_eq(a[i].as_slice(), b[i].as_slice()) {
            assert(seqs_of(b@).subrange(0, a@.len() as int)[i as int] != seqs_of(a@)[i as int]);
            return false;
        }
        i += 1;
    }
    assert(seqs_of(a@) =~= seqs_of(b@).subrange(0, a@.len() as int));
    true
}

/// How the components of a folder path relate to those of a base path.
pub enum BaseRelation {
    /// The folder path starts with the base path; the rest of its components.
    Below(Vec<String>),
    /// The folder path has fewer components than the base path and matches it as far as it goes.
    Shorter,
    /// The folder path differs from the base path in some component.
    Mismatch,
}

/// What `strip_base` returns for the folder path components `fp` and base components `bp`.
pub open spec fn strip_base_spec(fp: Seq<Seq<char>>, bp: Seq<Seq<char>>) -> Option<Option<Seq<Seq<char>>>> {
    if bp.is_prefix_of(fp) {
        Some(Some(fp.skip(bp.len() as int)))
    } else if fp.is_prefix_of(bp) {
        Some(None)
    } else {
        None
    }
}

/// The view of a `BaseRelation`: `Some(Some(rest))` for `Below(rest)`, `Some(None)` for
/// `Shorter`, `None` for `Mismatch`.
pub open spec fn base_relation_view(r: BaseRelation) -> Option<Option<Seq<Seq<char>>>> {
    match r {
        BaseRelation::Below(rest) => Some(Some(strings_view(rest@))),
        BaseRelation::Shorter => Some(None),
        BaseRelation::Mismatch => None,
    }
}

/// Walks the components of `folder` along those of `base`: the components that remain
/// after the base, or which way the two differ.
pub fn strip_base(folder: &str, base: &str) -> (r: BaseRelation)
    ensures
        base_relation_view(r) == strip_base_spec(path_components(folder@), path_components(base@)),
{
    let fc = crate::text::chars_of(folder);
    let bc = crate::text::chars_of(base);
    let fcomps = components_of(fc.as_slice());
    let bcomps = components_of(bc.as_slice());
    if components_prefix(&bcomps, &fcomps) {
        let mut rest: Vec<Vec<char>> = Vec::new();
        let mut i: usize = bcomps.len();
        while i < fcomps.len()
            invariant
                bcomps.len() <= i <= fcomps.len(),
                seqs_of(rest@) == seqs_of(fcomps@).subrange(bcomps.len() as int, i as int),
            decreases fcomps.len() - i,
        {
            let piece = fcomps[i].clone();
            push_piece(&mut rest, piece);
            i += 1;
            assert(seqs_of(rest@) =~= seqs_of(fcomps@).subrange(bcomps.len() as int, i as int));
        }
        let strs = strings_of(&rest);
        assert(seqs_of(fcomps@).subrange(bcomps.len() as int, fcomps.len() as int) =~= seqs_of(
            fcomps@,
        ).skip(bcomps.len() as int));
        BaseRelation::Below(strs)
    } else if components_prefix(&fcomps, &bcomps) {
        BaseRelation::Shorter
    } else {
        BaseRelation::Mismatch
    }
}

/// Splitting `a`, a `/`, then `b` gives the pieces of `a` followed by those of `b`.
pub proof fn lemma_split_concat(a: Seq<char>, b: Seq<char>)
    ensures
        split_slash(a + seq!['/'] + b) == split_slash(a) + split_slash(b),
    decreases b.len(),
{
    let x = a + seq!['/'] + b;
    if b.len() == 0 {
        assert(x.drop_last() =~= a);
        assert(split_slash(b) =~= seq![Seq::<char>::empty()]);
        assert(split_slash(x) =~= split_slash(a) + split_slash(b));
    } else {
        let b0 = b.drop_last();
        assert(x.drop_last() =~= a + seq!['/'] + b0);
        lemma_split_concat(a, b0);
        lemma_split_nonempty(a);
        lemma_split_nonempty(b0);
        let init = split_slash(a) + split_slash(b0);
        assert(split_slash(x.drop_last()) == init);
        if b.last() == '/' {
            assert(split_slash(x) =~= split_slash(a) + split_slash(b));
        } else {
            let sb0 = split_slash(b0);
            assert(init.last() == sb0.last());
            assert(split_slash(x) =~= split_slash(a) + sb0.update(sb0.len() - 1, sb0.last().push(b.last())));
        }
    }
}

/// The components of `a`, a `/`, then the relative path `b` (neither starting with `/`
/// nor with a `.` piece): those of `a` followed by those of `b`, unless `a` is empty.
pub proof fn lemma_components_concat(a: Seq<char>, b: Seq<char>)
    requires
        a.len() > 0,
        b.len() == 0 || b[0] != '/',
        split_slash(b)[0] != cur_component(),
    ensures
        path_components(a + seq!['/'] + b) == path_components(a) + path_components(b),
        path_components(a + seq!['/']) == path_components(a),
{
    let pred = |s: Seq<char>| is_named_piece(s);
    lemma_split_concat(a, b);
    lemma_split_concat(a, Seq::<char>::empty());
    assert(a + seq!['/'] + Seq::<char>::empty() =~= a + seq!['/']);
    lemma_split_nonempty(a);
    Seq::filter_distributes_over_add(split_slash(a), split_slash(b), pred);
    Seq::filter_distributes_over_add(split_slash(a), seq![Seq::<char>::empty()], pred);
    assert(split_slash(Seq::<char>::empty()) =~= seq![Seq::<char>::empty()]);
    assert(seq![Seq::<char>::empty()].filter(pred) =~= Seq::<Seq<char>>::empty()) by {
        let none = Seq::<Seq<char>>::empty();
        assert(none.push(Seq::<char>::empty()) =~= seq![Seq::<char>::empty()]);
        none.lemma_filter_push(Seq::<char>::empty(), pred);
        assert(none.filter(pred) =~= none) by {
            reveal(Seq::filter);
        }
    }
    let x = a + seq!['/'] + b;
    assert(x[0] == a[0]);
    assert((a + seq!['/'])[0] == a[0]);
    assert((split_slash(a) + split_slash(b))[0] == split_slash(a)[0]);
    assert((split_slash(a) + seq![Seq::<char>::empty()])[0] == split_slash(a)[0]);
    assert(path_components(a + seq!['/']) =~= path_components(a));
    assert(path_components(x) =~= path_components(a) + path_components(b));
}

} // verus!
