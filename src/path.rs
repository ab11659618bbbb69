//! Lexical resolution of absolute paths, with the list of intermediate paths
//! that must be checked for symlinks before the result may be trusted.

use vstd::prelude::*;
use crate::error::SecurityError;
use crate::text::{pieces, split_pieces, views};

verus! {

/// A path is absolute when it starts at the root.
pub open spec fn is_absolute(p: Seq<char>) -> bool {
    p.len() > 0 && p[0] == '/'
}

/// The non-empty segments of `p` between separators, in order.
pub open spec fn segments(p: Seq<char>) -> Seq<Seq<char>> {
    pieces(p, false, '/')
}

pub open spec fn is_cur_dir(s: Seq<char>) -> bool {
    s == seq!['.']
}

pub open spec fn is_parent_dir(s: Seq<char>) -> bool {
    s == seq!['.', '.']
}

/// Walks the segments from the root: `.` is skipped, `..` drops the last
/// component, any other name is appended. Yields the components reached, the
/// component lists probed (one per name appended, with that name last), and
/// whether a `..` tried to climb above the root, which ends the walk.
pub open spec fn walk(segs: Seq<Seq<char>>) -> (Seq<Seq<char>>, Seq<Seq<Seq<char>>>, bool)
    decreases segs.len(),
{
    if segs.len() == 0 {
        (Seq::empty(), Seq::empty(), false)
    } else {
        let (stack, probes, escaped) = walk(segs.drop_last());
        let s = segs.last();
        if escaped || is_cur_dir(s) {
            (stack, probes, escaped)
        } else if is_parent_dir(s) {
            if stack.len() == 0 {
                (stack, probes, true)
            } else {
                (stack.drop_last(), probes, false)
            }
        } else {
            (stack.push(s), probes.push(stack.push(s)), false)
        }
    }
}

/// `/c1/c2/.../cn` for components `c1 .. cn`; empty for no component.
pub open spec fn joined(comps: Seq<Seq<char>>) -> Seq<char>
    decreases comps.len(),
{
    if comps.len() == 0 {
        Seq::empty()
    } else {
        joined(comps.drop_last()).push('/') + comps.last()
    }
}

/// The absolute path made of `comps`; the root itself when there is none.
pub open spec fn render(comps: Seq<Seq<char>>) -> Seq<char> {
    if comps.len() == 0 {
        seq!['/']
    } else {
        joined(comps)
    }
}

/// The paths checked for symlinks while resolving `p`, in order.
pub open spec fn probe_paths(p: Seq<char>) -> Seq<Seq<char>> {
    if is_absolute(p) {
        walk(segments(p)).1.map_values(|c: Seq<Seq<char>>| render(c))
    } else {
        Seq::empty()
    }
}

/// What resolving `p` yields when the i-th probe is a symlink iff `symlink[i]`.
pub open spec fn resolution(p: Seq<char>, symlink: Seq<bool>) -> Result<Seq<char>, SecurityError> {
    let (stack, _probes, escaped) = walk(segments(p));
    if !is_absolute(p) {
        Err(SecurityError::RelativePath)
    } else if exists|i: int| 0 <= i < symlink.len() && symlink[i] {
        Err(SecurityError::SymlinkInPath)
    } else if escaped {
        Err(SecurityError::PathTraversal)
    } else {
        Ok(render(stack))
    }
}

/// The view of a path result.
pub open spec fn path_result(r: Result<String, SecurityError>) -> Result<Seq<char>, SecurityError> {
    match r {
        Ok(s) => Ok(s@),
        Err(e) => Err(e),
    }
}

/// Splits `path` into its non-empty segments.
pub fn split_segments(path: &str) -> (r: Vec<String>)
    ensures
        views(r@) == segments(path@),
{
    split_pieces(path, false, '/')
}

/// Executable form of [`is_absolute`].
pub fn absolute(path: &str) -> (r: bool)
    ensures
        r == is_absolute(path@),
{
    if path.unicode_len() == 0 {
        false
    } else {
        path.get_char(0) == '/'
    }
}

fn is_dot_segment(s: &String) -> (r: bool)
    ensures
        r == is_cur_dir(s@),
{
    if s.unicode_len() == 1 {
        let c = s.as_str().get_char(0);
        proof {
            if c == '.' {
                assert(s@ == seq!['.']);
            }
        }
        c == '.'
    } else {
        false
    }
}

fn is_dot_dot_segment(s: &String) -> (r: bool)
    ensures
        r == is_parent_dir(s@),
{
    if s.unicode_len() == 2 {
        let a = s.as_str().get_char(0);
        let b = s.as_str().get_char(1);
        proof {
            if a == '.' && b == '.' {
                assert(s@ == seq!['.', '.']);
            }
        }
        a == '.' && b == '.'
    } else {
        false
    }
}

/// The absolute path made of `comps`.
pub fn render_components(comps: &Vec<String>) -> (r: String)
    ensures
        r@ == render(views(comps@)),
{
    if comps.len() == 0 {
        let mut root = String::new();
        root.push('/');
        return root;
    }
    let mut out = String::new();
    let mut i: usize = 0;
    while i < comps.len()
        invariant
            i <= comps.len(),
            out@ == joined(views(comps@).take(i as int)),
        decreases comps.len() - i,
    {
        proof {
            assert(views(comps@).take(i + 1).drop_last() == views(comps@).take(i as int));
        }
        out.push('/');
        out.append(comps[i].as_str());
        i = i + 1;
    }
    proof {
        assert(views(comps@).take(comps.len() as int) == views(comps@));
    }
    out
}

/// Runs [`walk`] over `segs`, rendering each probe.
fn walk_segments(segs: &Vec<String>) -> (r: (Vec<String>, Vec<String>, bool))
    ensures
        views(r.0@) == walk(views(segs@)).0,
        views(r.1@) == walk(views(segs@)).1.map_values(|c: Seq<Seq<char>>| render(c)),
        r.2 == walk(views(segs@)).2,
{
    let mut stack: Vec<String> = Vec::new();
    let mut probes: Vec<String> = Vec::new();
    let mut escaped = false;
    let mut i: usize = 0;
    while i < segs.len()
        invariant
            i <= segs.len(),
            views(stack@) == walk(views(segs@).take(i as int)).0,
            views(probes@) == walk(views(segs@).take(i as int)).1.map_values(
                |c: Seq<Seq<char>>| render(c),
            ),
            escaped == walk(views(segs@).take(i as int)).2,
        decreases segs.len() - i,
    {
        let ghost pre = views(segs@).take(i as int);
        proof {
            assert(views(segs@).take(i + 1).drop_last() == pre);
            assert(views(segs@).take(i + 1).last() == segs@[i as int]@);
        }
        let seg = &segs[i];
        if escaped || is_dot_segment(seg) {
        } else if is_dot_dot_segment(seg) {
            if stack.len() == 0 {
                escaped = true;
            } else {
                let ghost before = stack@;
                stack.pop();
                proof {
                    assert(stack@ == before.drop_last());
                    assert(views(stack@) == views(before).drop_last());
                }
            }
        } else {
            let ghost before_stack = stack@;
            let ghost before_probes = probes@;
            stack.push(seg.clone());
            let probe = render_components(&stack);
            probes.push(probe);
            proof {
                assert(views(stack@) == views(before_stack).push(seg@));
                assert(views(probes@) == views(before_probes).push(probe@));
            }
        }
        i = i + 1;
    }
    proof {
        assert(views(segs@).take(segs.len() as int) == views(segs@));
    }
    (stack, probes, escaped)
}

/// The paths whose symlink status decides the resolution of `path`, in the
/// order in which they are reached: each prefix of the path that ends in a name.
pub fn symlink_probes(path: &str) -> (r: Vec<String>)
    ensures
        views(r@) == probe_paths(path@),
{
    if !absolute(path) {
        return Vec::new();
    }
    let segs = split_segments(path);
    let (_stack, probes, _escaped) = walk_segments(&segs);
    probes
}

/// Resolves the absolute `path` lexically, without following symlinks:
/// `.` is dropped, `..` removes the previous component. `symlink[i]` tells
/// whether the i-th path of [`symlink_probes`] is a symlink. Fails on a relative
/// path, on any symlink among the probes, and on a `..` that climbs above the root.
pub fn resolve_path_no_symlinks(path: &str, symlink: &Vec<bool>) -> (r: Result<String, SecurityError>)
    requires
        symlink@.len() == probe_paths(path@).len(),
    ensures
        path_result(r) == resolution(path@, symlink@),
{
    if !absolute(path) {
        return Err(SecurityError::RelativePath);
    }
    let mut i: usize = 0;
    while i < symlink.len()
        invariant
            i <= symlink.len(),
            is_absolute(path@),
            forall|j: int| 0 <= j < i ==> !symlink@[j],
        decreases symlink.len() - i,
    {
        if symlink[i] {
            assert(symlink@[i as int]);
            return Err(SecurityError::SymlinkInPath);
        }
        i = i + 1;
    }
    let segs = split_segments(path);
    let (stack, _probes, escaped) = walk_segments(&segs);
    if escaped {
        Err(SecurityError::PathTraversal)
    } else {
        Ok(render_components(&stack))
    }
}

/// `comps` begins with the components of `prefix`.
pub open spec fn starts_with(comps: Seq<Seq<char>>, prefix: Seq<Seq<char>>) -> bool {
    prefix.len() <= comps.len() && comps.take(prefix.len() as int) == prefix
}

/// The administrator-fixed roots under which logs may be written:
/// `/var/log` and `/opt`.
pub open spec fn allowed_log_roots() -> Seq<Seq<Seq<char>>> {
    seq![seq![seq!['v', 'a', 'r'], seq!['l', 'o', 'g']], seq![seq!['o', 'p', 't']]]
}

/// `p` is absolute, stays below the root, and resolves under an allowed root.
pub open spec fn allowed_log_dir(p: Seq<char>) -> bool {
    let (stack, _probes, escaped) = walk(segments(p));
    &&& is_absolute(p)
    &&& !escaped
    &&& exists|k: int| 0 <= k < allowed_log_roots().len() && starts_with(stack, #[trigger] allowed_log_roots()[k])
}

fn same_text(s: &String, lit: &str) -> (r: bool)
    ensures
        r == (s@ == lit@),
{
    let n = s.unicode_len();
    if n != lit.unicode_len() {
        return false;
    }
    let mut i: usize = 0;
    while i < n
        invariant
            n == s@.len(),
            n == lit@.len(),
            i <= n,
            s@.take(i as int) == lit@.take(i as int),
        decreases n - i,
    {
        if s.as_str().get_char(i) != lit.get_char(i) {
            return false;
        }
        proof {
            assert(s@.take(i + 1) == s@.take(i as int).push(s@[i as int]));
            assert(lit@.take(i + 1) == lit@.take(i as int).push(lit@[i as int]));
        }
        i = i + 1;
    }
    proof {
        assert(s@.take(n as int) == s@);
        assert(lit@.take(n as int) == lit@);
    }
    true
}

/// Whether `path` resolves, lexically, under `/var/log` or `/opt`.
pub fn is_allowed_log_dir(path: &str) -> (r: bool)
    ensures
        r == allowed_log_dir(path@),
{
    proof {
        reveal_strlit("var");
        reveal_strlit("log");
        reveal_strlit("opt");
    }
    if !absolute(path) {
        return false;
    }
    let segs = split_segments(path);
    let (stack, _probes, escaped) = walk_segments(&segs);
    if escaped {
        return false;
    }
    let ghost comps = views(stack@);
    let ghost roots = allowed_log_roots();
    assert(roots[0] == seq![seq!['v', 'a', 'r'], seq!['l', 'o', 'g']]);
    assert(roots[1] == seq![seq!['o', 'p', 't']]);
    let under_var_log = stack.len() >= 2 && same_text(&stack[0], "var") && same_text(&stack[1], "log");
    let under_opt = stack.len() >= 1 && same_text(&stack[0], "opt");
    proof {
        assert("var"@ =~= seq!['v', 'a', 'r']);
        assert("log"@ =~= seq!['l', 'o', 'g']);
        assert("opt"@ =~= seq!['o', 'p', 't']);
        if stack.len() >= 1 {
            assert(comps[0] == stack@[0]@);
        }
        if stack.len() >= 2 {
            assert(comps[1] == stack@[1]@);
        }
        if under_var_log {
            assert(comps.take(2) =~= roots[0]);
            assert(starts_with(comps, roots[0]));
        }
        if under_opt {
            assert(comps.take(1) =~= roots[1]);
            assert(starts_with(comps, roots[1]));
        }
        if !under_var_log && !under_opt {
            assert forall|k: int| 0 <= k < roots.len() implies !starts_with(comps, #[trigger] roots[k]) by {
                if k == 0 && starts_with(comps, roots[0]) {
                    assert(comps[0] == comps.take(2)[0]);
                    assert(comps[1] == comps.take(2)[1]);
                }
                if k == 1 && starts_with(comps, roots[1]) {
                    assert(comps[0] == comps.take(1)[0]);
                }
            }
        }
    }
    under_var_log || under_opt
}

/// When any path probed while resolving `p` is a symlink, resolution fails
/// with a symlink error, so no write can follow it.
pub proof fn lemma_symlink_rejected(p: Seq<char>, symlink: Seq<bool>, i: int)
    requires
        symlink.len() == probe_paths(p).len(),
        0 <= i < symlink.len(),
        symlink[i],
    ensures
        resolution(p, symlink) == Err::<Seq<char>, SecurityError>(SecurityError::SymlinkInPath),
{
}

} // verus!
