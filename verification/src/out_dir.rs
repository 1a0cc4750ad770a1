//! Where the expanded code of an application is written.
//!
//! The default is `<project_dir>/target/`. When no `target` directory exists
//! the build's `OUT_DIR` is used, e.g.
//! `<project_dir>/<target-dir>/<TARGET>/debug/build/rtic-<HASH>/out/`, cut
//! back to the parent of its deepest component that names a target (one that
//! starts with `thumbv` or `riscv`); with no such component, `OUT_DIR` itself.
use vstd::prelude::*;

use crate::outside::{path_last_component, path_parent};
use crate::text::{has_prefix, opt_view};

verus! {

/// One of the ancestors of a path, as `Path::ancestors` yields them.
pub struct Ancestor {
    /// The ancestor itself.
    pub path: String,
    /// Its last component, if it has one.
    pub last_component: Option<String>,
    /// Its parent, if it has one.
    pub parent: Option<String>,
}

/// Whether a path component names a compilation target.
pub open spec fn is_target_component(c: Seq<char>) -> bool {
    "thumbv"@.is_prefix_of(c) || "riscv"@.is_prefix_of(c)
}

/// The index of the last `/` in `p`, or `-1` when there is none.
pub open spec fn last_slash(p: Seq<char>) -> int
    decreases p.len(),
{
    if p.len() == 0 {
        -1
    } else if p.last() == '/' {
        p.len() - 1
    } else {
        last_slash(p.drop_last())
    }
}

/// `last_slash` is `-1` or an index of `p` that holds `/`.
pub proof fn lemma_last_slash(p: Seq<char>)
    ensures
        -1 <= last_slash(p) < p.len(),
        last_slash(p) >= 0 ==> p[last_slash(p)] == '/',
        forall|j: int| last_slash(p) < j < p.len() ==> p[j] != '/',
    decreases p.len(),
{
    if p.len() > 0 && p.last() != '/' {
        lemma_last_slash(p.drop_last());
        assert forall|j: int| last_slash(p) < j < p.len() implies p[j] != '/' by {
            if j < p.len() - 1 {
                assert(p.drop_last()[j] == p[j]);
            }
        }
        if last_slash(p) >= 0 {
            assert(p.drop_last()[last_slash(p)] == p[last_slash(p)]);
        }
    }
}

/// Whether `s` is a plain path segment: not empty, not `.` or `..`, and free
/// of `/`, `\` and `:`, so every platform reads it as one normal component.
pub open spec fn plain_segment(s: Seq<char>) -> bool {
    &&& s.len() > 0
    &&& s != seq!['.']
    &&& s != seq!['.', '.']
    &&& forall|i: int| 0 <= i < s.len() ==> s[i] != '/' && s[i] != '\\' && s[i] != ':'
}

/// The last component of a plain path: what follows its last `/`.
pub open spec fn plain_last(p: Seq<char>) -> Seq<char> {
    p.subrange(last_slash(p) + 1, p.len() as int)
}

/// Whether `p` is a plain path: plain segments joined by single `/`, with
/// or without one leading `/`, and no trailing `/`.
pub open spec fn plain_path(p: Seq<char>) -> bool
    decreases p.len(),
{
    let i = last_slash(p);
    &&& -1 <= i < p.len()
    &&& plain_segment(p.subrange(i + 1, p.len() as int))
    &&& (i <= 0 || plain_path(p.subrange(0, i)))
}

/// The parent of a plain path: what precedes its last `/`; `/` when that is
/// the leading `/`, and the empty path when it has a single segment.
pub open spec fn plain_parent(p: Seq<char>) -> Seq<char> {
    let i = last_slash(p);
    if i < 0 {
        Seq::empty()
    } else if i == 0 {
        seq!['/']
    } else {
        p.subrange(0, i)
    }
}

/// Whether a path component may start at index `i` of `p`: at the start, or
/// right after a separator (`/` or `\`) or the `:` of a drive prefix.
pub open spec fn segment_start(p: Seq<char>, i: int) -> bool {
    i == 0 || (0 < i <= p.len() && (p[i - 1] == '/' || p[i - 1] == '\\' || p[i - 1] == ':'))
}

/// Whether `c` occurs in `p` at index `i`.
pub open spec fn occurs_at(c: Seq<char>, p: Seq<char>, i: int) -> bool {
    0 <= i && i + c.len() <= p.len() && p.subrange(i, i + c.len()) == c
}

/// Whether a component of `p` may name a target: `thumbv` or `riscv` occurs
/// in `p` where a component may start.
pub open spec fn has_target_segment(p: Seq<char>) -> bool {
    exists|i: int|
        segment_start(p, i) && (occurs_at("thumbv"@, p, i) || occurs_at("riscv"@, p, i))
}

/// Whether every platform reads `p` the same way as a path: it holds no
/// `\`, no `:` right after a first character (a drive prefix), and does not
/// start with `//` (a network share).
pub open spec fn portable_path(p: Seq<char>) -> bool {
    &&& forall|i: int| 0 <= i < p.len() ==> p[i] != '\\'
    &&& !(p.len() >= 2 && p[1] == ':')
    &&& !(p.len() >= 2 && p[0] == '/' && p[1] == '/')
}

/// The pieces of `p` between its `/` separators, in order, empty ones
/// included.
pub open spec fn path_segments(p: Seq<char>) -> Seq<Seq<char>>
    decreases p.len(),
{
    let i = last_slash(p);
    if i < 0 || i >= p.len() {
        seq![p]
    } else {
        path_segments(p.subrange(0, i)) + seq![p.subrange(i + 1, p.len() as int)]
    }
}

/// The first `n` segments that are components: the empty ones (repeated or
/// trailing separators) and `.` are left out, except a `.` that begins a
/// relative path.
pub open spec fn kept_segments(segs: Seq<Seq<char>>, n: int, relative: bool) -> Seq<Seq<char>>
    decreases n,
{
    if n <= 0 {
        Seq::empty()
    } else {
        kept_segments(segs, n - 1, relative) + if segs[n - 1].len() > 0 && (segs[n - 1] != seq![
            '.',
        ] || (n - 1 == 0 && relative)) {
            seq![segs[n - 1]]
        } else {
            Seq::empty()
        }
    }
}

/// The components of `p` as `Path::components` documents them for a
/// portable path: the root `/` when `p` starts with one, then its segments,
/// with repeated separators, a trailing separator and `.` normalized away,
/// except a `.` that begins the path.
#[verifier::opaque]
pub open spec fn path_components(p: Seq<char>) -> Seq<Seq<char>> {
    let absolute = p.len() > 0 && p[0] == '/';
    (if absolute {
        seq![seq!['/']]
    } else {
        Seq::empty()
    }) + kept_segments(path_segments(p), path_segments(p).len() as int, !absolute)
}

/// Whether the components of a path are the root alone.
pub open spec fn is_root_only(cs: Seq<Seq<char>>) -> bool {
    cs.len() == 1 && cs[0] == seq!['/']
}

/// The index of the deepest component that names a target, or `-1`.
pub open spec fn deepest_target(cs: Seq<Seq<char>>) -> int
    decreases cs.len(),
{
    if cs.len() == 0 {
        -1
    } else if is_target_component(cs.last()) {
        cs.len() - 1
    } else {
        deepest_target(cs.drop_last())
    }
}

/// What `Path::parent` and `Path::components` show of one ancestor: a parent
/// is a shorter prefix; a plain path's parent and last component are the
/// plain ones; the empty path and `/` have no parent, the empty path has no
/// component and the last component of `/` is the root, one character.
pub open spec fn ancestor_facts(a: Ancestor) -> bool {
    &&& (a.parent matches Some(q) ==> q@.len() < a.path@.len() && q@.is_prefix_of(a.path@))
    &&& (plain_path(a.path@) ==> opt_view(a.parent) == Some(plain_parent(a.path@)) && opt_view(
        a.last_component,
    ) == Some(plain_last(a.path@)))
    &&& (a.path@.len() == 0 ==> a.parent is None && a.last_component is None)
    &&& (a.path@ == seq!['/'] ==> a.parent is None && a.last_component is Some
        && a.last_component->0@.len() == 1)
    &&& (a.last_component matches Some(c) ==> c@.len() <= 2 || exists|i: int|
        segment_start(a.path@, i) && occurs_at(c@, a.path@, i))
    &&& (portable_path(a.path@) ==> {
        let cs = path_components(a.path@);
        &&& (a.parent is None <==> cs.len() == 0 || is_root_only(cs))
        &&& (a.parent matches Some(q) ==> path_components(q@) == cs.drop_last())
        &&& (cs.len() == 0 ==> a.last_component is None)
        &&& (cs.len() > 0 && !is_root_only(cs) ==> opt_view(a.last_component) == Some(cs.last()))
        &&& (is_root_only(cs) ==> a.last_component is Some && a.last_component->0@.len() == 1)
    })
}

/// Whether `anc` lists the ancestors of `path`: `path` first, then each
/// entry's parent, until an entry has no parent; each entry with the parent
/// and last component that `Path` gives it.
pub open spec fn ancestor_chain(path: Seq<char>, anc: Seq<Ancestor>) -> bool {
    &&& anc.len() >= 1
    &&& anc[0].path@ == path
    &&& forall|i: int|
        0 <= i < anc.len() - 1 ==> opt_view(#[trigger] anc[i].parent) == Some(anc[i + 1].path@)
    &&& anc.last().parent is None
    &&& forall|i: int| 0 <= i < anc.len() ==> ancestor_facts(#[trigger] anc[i])
}

/// The directory chosen among the ancestors: for the first one whose last
/// component names a target, its parent (or itself, when it has none);
/// `out_dir` when none does.
pub open spec fn chosen_dir(out_dir: Seq<char>, anc: Seq<Ancestor>) -> Seq<char>
    decreases anc.len(),
{
    if anc.len() == 0 {
        out_dir
    } else if anc[0].last_component is Some && is_target_component(
        anc[0].last_component->0@,
    ) {
        match anc[0].parent {
            Some(p) => p@,
            None => anc[0].path@,
        }
    } else {
        chosen_dir(out_dir, anc.drop_first())
    }
}

/// For a plain `OUT_DIR`: the part before its deepest segment that names a
/// target (`/` or the empty path when that segment comes first), or `out_dir`
/// when no segment of `p` names one.
pub open spec fn plain_output_dir(p: Seq<char>, out_dir: Seq<char>) -> Seq<char>
    decreases p.len(),
{
    if !plain_path(p) {
        out_dir
    } else if is_target_component(plain_last(p)) {
        plain_parent(p)
    } else if 0 < last_slash(p) < p.len() {
        plain_output_dir(p.subrange(0, last_slash(p)), out_dir)
    } else {
        out_dir
    }
}

/// Whether `dir` is where the expansion goes: `target` when that directory
/// exists; else the directory chosen among the ancestors of `out_dir`, which
/// is `out_dir` or a prefix of it, `out_dir` itself when no component of it
/// can name a target, for a portable `out_dir` the prefix whose components
/// are those before its deepest component that names a target, and for a
/// plain `out_dir` exactly the part before that component.
pub open spec fn is_output_dir(target_exists: bool, out_dir: Seq<char>, dir: Seq<char>) -> bool {
    if target_exists {
        dir == "target"@
    } else {
        &&& dir.is_prefix_of(out_dir)
        &&& (plain_path(out_dir) ==> dir == plain_output_dir(out_dir, out_dir))
        &&& (!has_target_segment(out_dir) ==> dir == out_dir)
        &&& (portable_path(out_dir) ==> {
            let cs = path_components(out_dir);
            &&& (deepest_target(cs) < 0 ==> dir == out_dir)
            &&& (deepest_target(cs) >= 0 ==> path_components(dir) == cs.take(deepest_target(cs)))
        })
        &&& exists|anc: Seq<Ancestor>|
            ancestor_chain(out_dir, anc) && dir == chosen_dir(out_dir, anc)
    }
}

/// Being a prefix is transitive.
proof fn lemma_prefix_trans(a: Seq<char>, b: Seq<char>, c: Seq<char>)
    requires
        a.is_prefix_of(b),
        b.is_prefix_of(c),
    ensures
        a.is_prefix_of(c),
{
    assert forall|i: int| 0 <= i < a.len() implies a[i] == c[i] by {
        assert(a[i] == b.subrange(0, a.len() as int)[i]);
        assert(b[i] == c.subrange(0, b.len() as int)[i]);
    }
    assert(a =~= c.subrange(0, a.len() as int));
}

/// The rest of an ancestor chain is the ancestor chain of the parent.
proof fn lemma_chain_rest(p: Seq<char>, anc: Seq<Ancestor>)
    requires
        ancestor_chain(p, anc),
        anc.len() >= 2,
    ensures
        opt_view(anc[0].parent) == Some(anc[1].path@),
        ancestor_chain(anc[1].path@, anc.drop_first()),
{
    assert(opt_view(anc[0].parent) == Some(anc[1].path@));
    let rest = anc.drop_first();
    assert forall|i: int| 0 <= i < rest.len() - 1 implies opt_view(#[trigger] rest[i].parent)
        == Some(rest[i + 1].path@) by {
        assert(opt_view(anc[i + 1].parent) == Some(anc[i + 2].path@));
    }
    assert forall|i: int| 0 <= i < rest.len() implies ancestor_facts(#[trigger] rest[i]) by {
        assert(ancestor_facts(anc[i + 1]));
    }
}

/// An entry without a parent is the last of its chain.
proof fn lemma_chain_single(p: Seq<char>, anc: Seq<Ancestor>)
    requires
        ancestor_chain(p, anc),
        anc[0].parent is None,
    ensures
        anc.len() == 1,
{
    if anc.len() > 1 {
        assert(opt_view(anc[0].parent) == Some(anc[1].path@));
    }
}

/// The directory chosen among the ancestors of `p` is a prefix of any path
/// that `p` is a prefix of.
pub proof fn lemma_chosen_dir_prefix(p: Seq<char>, out_dir: Seq<char>, anc: Seq<Ancestor>)
    requires
        ancestor_chain(p, anc),
        p.is_prefix_of(out_dir),
    ensures
        chosen_dir(out_dir, anc).is_prefix_of(out_dir),
    decreases anc.len(),
{
    assert(ancestor_facts(anc[0]));
    if anc[0].last_component is Some && is_target_component(anc[0].last_component->0@) {
        match anc[0].parent {
            Some(q) => lemma_prefix_trans(q@, p, out_dir),
            None => {},
        }
    } else if anc.len() >= 2 {
        assert(chosen_dir(out_dir, anc) == chosen_dir(out_dir, anc.drop_first()));
        lemma_chain_rest(p, anc);
        lemma_prefix_trans(anc[1].path@, p, out_dir);
        lemma_chosen_dir_prefix(anc[1].path@, out_dir, anc.drop_first());
    } else {
        assert(chosen_dir(out_dir, anc) == chosen_dir(out_dir, anc.drop_first()));
        assert(anc.drop_first().len() == 0);
        assert(out_dir.is_prefix_of(out_dir)) by {
            assert(out_dir =~= out_dir.subrange(0, out_dir.len() as int));
        }
    }
}

/// On the ancestors of a path that is a prefix of `out_dir`, where no
/// component of `out_dir` can name a target, the chosen directory is
/// `out_dir`.
pub proof fn lemma_chosen_dir_no_target(p: Seq<char>, out_dir: Seq<char>, anc: Seq<Ancestor>)
    requires
        ancestor_chain(p, anc),
        p.is_prefix_of(out_dir),
        !has_target_segment(out_dir),
    ensures
        chosen_dir(out_dir, anc) == out_dir,
    decreases anc.len(),
{
    reveal_strlit("thumbv");
    reveal_strlit("riscv");
    assert(ancestor_facts(anc[0]));
    if anc[0].last_component is Some && is_target_component(anc[0].last_component->0@) {
        let c = anc[0].last_component->0@;
        let i = choose|i: int| segment_start(p, i) && occurs_at(c, p, i);
        assert(segment_start(out_dir, i)) by {
            if i > 0 {
                assert(out_dir.subrange(0, p.len() as int)[i - 1] == out_dir[i - 1]);
            }
        }
        assert(out_dir.subrange(i, i + c.len()) =~= c) by {
            assert forall|j: int| 0 <= j < c.len() implies out_dir.subrange(i, i + c.len())[j]
                == c[j] by {
                assert(p.subrange(i, i + c.len())[j] == p[i + j]);
                assert(out_dir.subrange(0, p.len() as int)[i + j] == out_dir[i + j]);
            }
        }
        if "thumbv"@.is_prefix_of(c) {
            assert(out_dir.subrange(i, i + 6) =~= "thumbv"@) by {
                assert forall|j: int| 0 <= j < 6 implies out_dir.subrange(i, i + 6)[j]
                    == "thumbv"@[j] by {
                    assert(out_dir.subrange(i, i + c.len())[j] == c[j]);
                    assert(c.subrange(0, 6)[j] == c[j]);
                }
            }
            assert(occurs_at("thumbv"@, out_dir, i));
        } else {
            assert(out_dir.subrange(i, i + 5) =~= "riscv"@) by {
                assert forall|j: int| 0 <= j < 5 implies out_dir.subrange(i, i + 5)[j]
                    == "riscv"@[j] by {
                    assert(out_dir.subrange(i, i + c.len())[j] == c[j]);
                    assert(c.subrange(0, 5)[j] == c[j]);
                }
            }
            assert(occurs_at("riscv"@, out_dir, i));
        }
        assert(has_target_segment(out_dir));
    } else if anc.len() >= 2 {
        assert(chosen_dir(out_dir, anc) == chosen_dir(out_dir, anc.drop_first()));
        lemma_chain_rest(p, anc);
        lemma_prefix_trans(anc[1].path@, p, out_dir);
        lemma_chosen_dir_no_target(anc[1].path@, out_dir, anc.drop_first());
    } else {
        assert(chosen_dir(out_dir, anc) == chosen_dir(out_dir, anc.drop_first()));
        assert(anc.drop_first().len() == 0);
    }
}

/// `deepest_target` is `-1` or an index of `cs`.
proof fn lemma_deepest_target_bound(cs: Seq<Seq<char>>)
    ensures
        -1 <= deepest_target(cs) < cs.len(),
    decreases cs.len(),
{
    if cs.len() > 0 && !is_target_component(cs.last()) {
        lemma_deepest_target_bound(cs.drop_last());
    }
}

/// A prefix of a portable path is portable.
proof fn lemma_portable_prefix(q: Seq<char>, p: Seq<char>)
    requires
        portable_path(p),
        q.is_prefix_of(p),
    ensures
        portable_path(q),
{
    assert forall|i: int| 0 <= i < q.len() implies q[i] != '\\' by {
        assert(q[i] == p.subrange(0, q.len() as int)[i]);
    }
    if q.len() >= 2 {
        assert(q[0] == p.subrange(0, q.len() as int)[0]);
        assert(q[1] == p.subrange(0, q.len() as int)[1]);
    }
}

/// On the ancestors of a portable path, the chosen directory is the prefix
/// whose components end before the deepest component that names a target,
/// or `out_dir` when none does.
#[verifier::rlimit(50)]
pub proof fn lemma_chosen_dir_portable(p: Seq<char>, out_dir: Seq<char>, anc: Seq<Ancestor>)
    requires
        ancestor_chain(p, anc),
        portable_path(p),
    ensures
        deepest_target(path_components(p)) < 0 ==> chosen_dir(out_dir, anc) == out_dir,
        deepest_target(path_components(p)) >= 0 ==> path_components(chosen_dir(out_dir, anc))
            == path_components(p).take(deepest_target(path_components(p))),
    decreases anc.len(),
{
    reveal_strlit("thumbv");
    reveal_strlit("riscv");
    let cs = path_components(p);
    assert(ancestor_facts(anc[0]));
    if cs.len() == 0 || is_root_only(cs) {
        lemma_chain_single(p, anc);
        if is_root_only(cs) {
            assert(!is_target_component(anc[0].last_component->0@));
            assert(!is_target_component(cs[0]));
            assert(cs.drop_last().len() == 0);
            assert(deepest_target(cs) == deepest_target(cs.drop_last()));
        }
        assert(deepest_target(cs) == -1);
        assert(chosen_dir(out_dir, anc) == chosen_dir(out_dir, anc.drop_first()));
        assert(anc.drop_first().len() == 0);
    } else {
        assert(anc[0].last_component->0@ == cs.last());
        assert(anc.len() >= 2) by {
            if anc.len() == 1 {
                assert(anc.last() == anc[0]);
            }
        }
        if is_target_component(cs.last()) {
            assert(anc[0].parent is Some);
            let q = anc[0].parent->0;
            assert(chosen_dir(out_dir, anc) == q@);
            assert(path_components(q@) == cs.drop_last());
            assert(deepest_target(cs) == cs.len() - 1);
            assert(cs.take(cs.len() - 1) =~= cs.drop_last());
        } else {
            assert(chosen_dir(out_dir, anc) == chosen_dir(out_dir, anc.drop_first()));
            lemma_chain_rest(p, anc);
            let q = anc[1].path@;
            assert(anc[0].parent is Some);
            assert(anc[0].parent->0@ == q);
            assert(path_components(q) == cs.drop_last());
            lemma_portable_prefix(q, p);
            lemma_chosen_dir_portable(q, out_dir, anc.drop_first());
            let d = deepest_target(cs);
            assert(d == deepest_target(cs.drop_last()));
            lemma_deepest_target_bound(cs.drop_last());
            if d >= 0 {
                assert(cs.drop_last().take(d) =~= cs.take(d));
            }
        }
    }
}

/// On the ancestors of a plain path (or of `/` or the empty path, where
/// they end), the chosen directory is `plain_output_dir`.
pub proof fn lemma_chosen_dir_plain(p: Seq<char>, out_dir: Seq<char>, anc: Seq<Ancestor>)
    requires
        ancestor_chain(p, anc),
        plain_path(p) || p.len() == 0 || p == seq!['/'],
    ensures
        chosen_dir(out_dir, anc) == plain_output_dir(p, out_dir),
    decreases anc.len(),
{
    reveal_strlit("thumbv");
    reveal_strlit("riscv");
    assert(ancestor_facts(anc[0]));
    lemma_last_slash(p);
    if plain_path(p) {
        assert(opt_view(anc[0].last_component) == Some(plain_last(p)));
        assert(anc[0].last_component->0@ == plain_last(p));
        if !is_target_component(plain_last(p)) {
            assert(anc[0].parent is Some);
            assert(anc.len() >= 2) by {
                if anc.len() == 1 {
                    assert(anc.last() == anc[0]);
                }
            }
            assert(chosen_dir(out_dir, anc) == chosen_dir(out_dir, anc.drop_first()));
            lemma_chain_rest(p, anc);
            let q = plain_parent(p);
            if last_slash(p) > 0 {
                lemma_chosen_dir_plain(q, out_dir, anc.drop_first());
            } else if last_slash(p) == 0 {
                assert(!plain_path(q)) by {
                    lemma_last_slash(q);
                    assert(q.subrange(1, 1).len() == 0);
                }
                lemma_chosen_dir_plain(q, out_dir, anc.drop_first());
            } else {
                lemma_chosen_dir_plain(q, out_dir, anc.drop_first());
            }
        }
    } else {
        lemma_chain_single(p, anc);
        if p == seq!['/'] {
            assert(!is_target_component(anc[0].last_component->0@));
        }
        assert(chosen_dir(out_dir, anc) == chosen_dir(out_dir, anc.drop_first()));
        assert(anc.drop_first().len() == 0);
    }
}

/// Whether a segment that starts with `thumbv` or `riscv` starts at index `j`
/// of `p`: at its start or right after a `/`.
pub open spec fn target_segment_at(p: Seq<char>, j: int) -> bool {
    &&& (j == 0 || (0 < j <= p.len() && p[j - 1] == '/'))
    &&& (occurs_at("thumbv"@, p, j) || occurs_at("riscv"@, p, j))
}

/// The path before the segment that starts at index `j` of `p`: the empty
/// path when that segment comes first, `/` when only the leading `/` precedes
/// it, else what precedes the `/` in front of it.
pub open spec fn path_before(p: Seq<char>, j: int) -> Seq<char> {
    if j <= 0 {
        Seq::empty()
    } else if j == 1 {
        seq!['/']
    } else {
        p.subrange(0, j - 1)
    }
}

/// A component names a target exactly when it starts with `thumbv` or
/// `riscv`; so the last segment of a plain path names one exactly when such
/// a segment starts right after the last `/`.
proof fn lemma_last_segment_target(p: Seq<char>)
    requires
        plain_path(p),
    ensures
        is_target_component(plain_last(p)) <==> target_segment_at(p, last_slash(p) + 1),
{
    reveal_strlit("thumbv");
    reveal_strlit("riscv");
    lemma_last_slash(p);
    let i = last_slash(p);
    let c = plain_last(p);
    assert(i + 1 == 0 || p[i] == '/');
    if "thumbv"@.is_prefix_of(c) {
        assert(p.subrange(i + 1, i + 7) =~= "thumbv"@) by {
            assert forall|k: int| 0 <= k < 6 implies #[trigger] p.subrange(i + 1, i + 7)[k]
                == "thumbv"@[k] by {
                assert(c.subrange(0, 6)[k] == c[k]);
            }
        }
    }
    if "riscv"@.is_prefix_of(c) {
        assert(p.subrange(i + 1, i + 6) =~= "riscv"@) by {
            assert forall|k: int| 0 <= k < 5 implies #[trigger] p.subrange(i + 1, i + 6)[k]
                == "riscv"@[k] by {
                assert(c.subrange(0, 5)[k] == c[k]);
            }
        }
    }
    if occurs_at("thumbv"@, p, i + 1) {
        assert(c.subrange(0, 6) =~= "thumbv"@) by {
            assert forall|k: int| 0 <= k < 6 implies #[trigger] c.subrange(0, 6)[k]
                == "thumbv"@[k] by {
                assert(p.subrange(i + 1, i + 7)[k] == p[i + 1 + k]);
            }
        }
    }
    if occurs_at("riscv"@, p, i + 1) {
        assert(c.subrange(0, 5) =~= "riscv"@) by {
            assert forall|k: int| 0 <= k < 5 implies #[trigger] c.subrange(0, 5)[k]
                == "riscv"@[k] by {
                assert(p.subrange(i + 1, i + 6)[k] == p[i + 1 + k]);
            }
        }
    }
}

/// A segment that names a target and starts before the last segment of a
/// plain path lies in front of its last `/`, and is one of the path before
/// that `/`.
proof fn lemma_target_segment_in_parent(p: Seq<char>, j: int)
    requires
        plain_path(p),
        target_segment_at(p, j),
        j != last_slash(p) + 1,
    ensures
        0 < last_slash(p),
        target_segment_at(p.subrange(0, last_slash(p)), j),
{
    reveal_strlit("thumbv");
    reveal_strlit("riscv");
    lemma_last_slash(p);
    let i = last_slash(p);
    let q = p.subrange(0, i);
    // No `/` follows the last one, so the segment starts at most right after it.
    assert(j <= i) by {
        if j > i + 1 {
            assert(p[j - 1] != '/');
        }
    }
    // The segment's first character is not a `/`.
    assert(j != i) by {
        if occurs_at("thumbv"@, p, j) {
            assert(p.subrange(j, j + 6)[0] == p[j]);
        } else {
            assert(p.subrange(j, j + 5)[0] == p[j]);
        }
    }
    assert(i >= 0) by {
        if i < 0 {
            assert(j <= -1);
        }
    }
    if occurs_at("thumbv"@, p, j) {
        assert(j + 6 <= i) by {
            if j + 6 > i {
                assert(p.subrange(j, j + 6)[i - j] == p[i]);
            }
        }
        assert(q.subrange(j, j + 6) =~= p.subrange(j, j + 6));
    } else {
        assert(j + 5 <= i) by {
            if j + 5 > i {
                assert(p.subrange(j, j + 5)[i - j] == p[i]);
            }
        }
        assert(q.subrange(j, j + 5) =~= p.subrange(j, j + 5));
    }
    if j > 0 {
        assert(q[j - 1] == p[j - 1]);
    }
}

/// A segment that names a target in the path before the last `/` of `p` is
/// one of `p` too.
proof fn lemma_target_segment_from_parent(p: Seq<char>, k: int)
    requires
        0 < last_slash(p),
        target_segment_at(p.subrange(0, last_slash(p)), k),
    ensures
        target_segment_at(p, k),
{
    reveal_strlit("thumbv");
    reveal_strlit("riscv");
    lemma_last_slash(p);
    let q = p.subrange(0, last_slash(p));
    if k > 0 {
        assert(q[k - 1] == p[k - 1]);
    }
    if occurs_at("thumbv"@, q, k) {
        assert(p.subrange(k, k + 6) =~= q.subrange(k, k + 6));
    } else {
        assert(p.subrange(k, k + 5) =~= q.subrange(k, k + 5));
    }
}

/// For a plain `OUT_DIR` without a `target` directory, the expansion goes
/// to the path before its deepest segment that starts with `thumbv` or
/// `riscv`: any component that starts with one of them names a target.
pub proof fn output_dir_cut_at_deepest_target(out_dir: Seq<char>, dir: Seq<char>, j: int)
    requires
        is_output_dir(false, out_dir, dir),
        plain_path(out_dir),
        target_segment_at(out_dir, j),
        forall|k: int| j < k <= out_dir.len() ==> !target_segment_at(out_dir, k),
    ensures
        dir == path_before(out_dir, j),
{
    lemma_plain_output_dir_deepest(out_dir, out_dir, j);
}

/// For a plain path, `plain_output_dir` is the path before its deepest
/// segment that starts with `thumbv` or `riscv`.
pub proof fn lemma_plain_output_dir_deepest(p: Seq<char>, out_dir: Seq<char>, j: int)
    requires
        plain_path(p),
        target_segment_at(p, j),
        forall|k: int| j < k <= p.len() ==> !target_segment_at(p, k),
    ensures
        plain_output_dir(p, out_dir) == path_before(p, j),
    decreases p.len(),
{
    lemma_last_slash(p);
    lemma_last_segment_target(p);
    let i = last_slash(p);
    if j == i + 1 {
        assert(is_target_component(plain_last(p)));
    } else {
        lemma_target_segment_in_parent(p, j);
        let q = p.subrange(0, i);
        assert(!is_target_component(plain_last(p))) by {
            assert(j < i + 1 <= p.len());
        }
        assert(plain_path(q));
        assert forall|k: int| j < k <= q.len() implies !target_segment_at(q, k) by {
            if target_segment_at(q, k) {
                lemma_target_segment_from_parent(p, k);
            }
        }
        lemma_plain_output_dir_deepest(q, out_dir, j);
        assert(plain_output_dir(p, out_dir) == plain_output_dir(q, out_dir));
        if j > 1 {
            assert(q.subrange(0, j - 1) =~= p.subrange(0, j - 1));
        }
    }
}

/// Whether a path component names a compilation target.
pub fn is_target(component: &str) -> (res: bool)
    ensures
        res == is_target_component(component@),
        res == ("thumbv"@.is_prefix_of(component@) || "riscv"@.is_prefix_of(component@)),
{
    has_prefix(component, "thumbv") || has_prefix(component, "riscv")
}

/// Chooses the directory among the ancestors of `out_dir`.
pub fn select_output_dir(out_dir: &str, ancestors: &Vec<Ancestor>) -> (res: String)
    ensures
        res@ == chosen_dir(out_dir@, ancestors@),
{
    let mut i: usize = 0;
    assert(ancestors@.skip(0) =~= ancestors@);
    while i < ancestors.len()
        invariant
            i <= ancestors.len(),
            chosen_dir(out_dir@, ancestors@) == chosen_dir(out_dir@, ancestors@.skip(i as int)),
        decreases ancestors.len() - i,
    {
        let a = &ancestors[i];
        proof {
            assert(ancestors@.skip(i as int)[0] == *a);
            assert(ancestors@.skip(i as int).drop_first() =~= ancestors@.skip(i + 1));
        }
        match &a.last_component {
            Some(c) => {
                if is_target(c.as_str()) {
                    match &a.parent {
                        Some(p) => {
                            return p.clone();
                        },
                        None => {
                            return a.path.clone();
                        },
                    }
                }
            },
            None => {},
        }
        i += 1;
    }
    String::from_str(out_dir)
}

/// Lists the ancestors of `path`, as `Path::ancestors` does.
pub fn ancestors(path: &str) -> (res: Vec<Ancestor>)
    ensures
        ancestor_chain(path@, res@),
{
    let mut res: Vec<Ancestor> = Vec::new();
    let mut cur = String::from_str(path);
    loop
        invariant
            forall|i: int|
                0 <= i < res.len() - 1 ==> opt_view(#[trigger] res@[i].parent) == Some(
                    res@[i + 1].path@,
                ),
            res.len() == 0 ==> cur@ == path@,
            res.len() > 0 ==> res@[0].path@ == path@,
            res.len() > 0 ==> opt_view(res@.last().parent) == Some(cur@),
            forall|i: int| 0 <= i < res.len() ==> ancestor_facts(#[trigger] res@[i]),
        decreases cur@.len(),
    {
        let last_component = path_last_component(cur.as_str());
        let parent = path_parent(cur.as_str());
        match parent {
            Some(p) => {
                let next = p.clone();
                res.push(Ancestor { path: cur, last_component, parent: Some(p) });
                cur = next;
            },
            None => {
                res.push(Ancestor { path: cur, last_component, parent: None });
                return res;
            },
        }
    }
}

/// The directory the expansion is written to. `target_exists` tells whether
/// a `target` directory exists; `out_dir` is the build's `OUT_DIR` (empty
/// when unset).
pub fn output_dir(target_exists: bool, out_dir: &str) -> (res: String)
    ensures
        is_output_dir(target_exists, out_dir@, res@),
{
    if target_exists {
        return String::from_str("target");
    }
    let anc = ancestors(out_dir);
    let res = select_output_dir(out_dir, &anc);
    proof {
        assert(out_dir@.is_prefix_of(out_dir@)) by {
            assert(out_dir@ =~= out_dir@.subrange(0, out_dir@.len() as int));
        }
        lemma_chosen_dir_prefix(out_dir@, out_dir@, anc@);
        if !has_target_segment(out_dir@) {
            lemma_chosen_dir_no_target(out_dir@, out_dir@, anc@);
        }
        if portable_path(out_dir@) {
            lemma_chosen_dir_portable(out_dir@, out_dir@, anc@);
        }
        if plain_path(out_dir@) {
            lemma_chosen_dir_plain(out_dir@, out_dir@, anc@);
        }
    }
    assert(ancestor_chain(out_dir@, anc@) && res@ == chosen_dir(out_dir@, anc@));
    res
}

/// The file the expansion is written to: `rtic-expansion.rs` in the output
/// directory.
pub fn expansion_file(target_exists: bool, out_dir: &str) -> (res: String)
    ensures
        exists|dir: Seq<char>|
            is_output_dir(target_exists, out_dir@, dir) && res@ == dir + "/rtic-expansion.rs"@,
{
    let mut path = output_dir(target_exists, out_dir);
    let ghost dir = path@;
    path.append("/rtic-expansion.rs");
    path
}

} // verus!
