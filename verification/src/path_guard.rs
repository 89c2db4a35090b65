//! Path resolution and containment: every user-supplied path fragment is
//! resolved against the current directory into an absolute, normalized path,
//! and the result is accepted only if the sandbox root is a component-wise
//! prefix of it.

use vstd::prelude::*;

verus! {

/// An absolute filesystem path, held as its components from the filesystem
/// root. The empty sequence of components is the filesystem root itself.
pub struct AbsPath {
    pub parts: Vec<String>,
}

impl View for AbsPath {
    type V = Seq<Seq<char>>;

    open spec fn view(&self) -> Seq<Seq<char>> {
        self.parts.deep_view()
    }
}

/// A well-formed path component: non-empty, not a navigation component, and
/// free of the separator.
pub open spec fn valid_component(c: Seq<char>) -> bool {
    &&& c.len() > 0
    &&& c != "."@
    &&& c != ".."@
    &&& !c.contains('/')
}

/// All components of a path are well-formed.
pub open spec fn path_wf(p: Seq<Seq<char>>) -> bool {
    forall|i: int| 0 <= i < p.len() ==> valid_component(#[trigger] p[i])
}

impl AbsPath {
    pub open spec fn wf(&self) -> bool {
        path_wf(self@)
    }

    /// The filesystem root: the path with no components.
    pub fn fs_root() -> (r: AbsPath)
        ensures
            r@ == Seq::<Seq<char>>::empty(),
            r.wf(),
    {
        let r = AbsPath { parts: Vec::new() };
        proof {
            assert(r@ =~= Seq::<Seq<char>>::empty());
        }
        r
    }
}

/// One normalization step: fold the component `c` into the absolute path
/// `acc`. Empty components and `.` are dropped, `..` removes the last
/// component (the filesystem root is its own parent), anything else descends.
pub open spec fn step_component(acc: Seq<Seq<char>>, c: Seq<char>) -> Seq<Seq<char>> {
    if c.len() == 0 || c == "."@ {
        acc
    } else if c == ".."@ {
        if acc.len() > 0 {
            acc.drop_last()
        } else {
            acc
        }
    } else {
        acc.push(c)
    }
}

/// Normalization of the remainder `rest` of a fragment: `cur` is the
/// component read so far, `acc` the absolute path built so far.
pub open spec fn normalize_from(acc: Seq<Seq<char>>, cur: Seq<char>, rest: Seq<char>) -> Seq<
    Seq<char>,
>
    decreases rest.len(),
{
    if rest.len() == 0 {
        step_component(acc, cur)
    } else if rest[0] == '/' {
        normalize_from(step_component(acc, cur), Seq::empty(), rest.skip(1))
    } else {
        normalize_from(acc, cur.push(rest[0]), rest.skip(1))
    }
}

/// The absolute path a fragment denotes: a fragment that starts with the
/// separator is taken from the filesystem root, any other from `cwd`; the
/// components are then folded in one by one.
pub open spec fn resolve_spec(frag: Seq<char>, cwd: Seq<Seq<char>>) -> Seq<Seq<char>> {
    let base = if frag.len() > 0 && frag[0] == '/' {
        Seq::<Seq<char>>::empty()
    } else {
        cwd
    };
    normalize_from(base, Seq::empty(), frag)
}

/// Folds the fragment component `frag[start..end]` into `acc`.
fn apply_component(acc: &mut Vec<String>, frag: &str, start: usize, end: usize)
    requires
        start <= end <= frag@.len(),
        forall|j: int| start <= j < end ==> frag@[j] != '/',
        path_wf(old(acc).deep_view()),
    ensures
        final(acc).deep_view() == step_component(
            old(acc).deep_view(),
            frag@.subrange(start as int, end as int),
        ),
        path_wf(final(acc).deep_view()),
{
    proof {
        reveal_strlit(".");
        reveal_strlit("..");
    }
    let ghost c = frag@.subrange(start as int, end as int);
    let len = end - start;
    if len == 0 {
        proof {
            assert(c.len() == 0);
        }
    } else if len == 1 && frag.get_char(start) == '.' {
        proof {
            assert(c =~= "."@);
        }
    } else if len == 2 && frag.get_char(start) == '.' && frag.get_char(start + 1) == '.' {
        proof {
            assert(c =~= ".."@);
            assert(c != "."@);
        }
        if acc.len() > 0 {
            let _ = acc.pop();
            proof {
                assert(acc.deep_view() =~= old(acc).deep_view().drop_last());
            }
        }
    } else {
        let comp = frag.substring_char(start, end);
        proof {
            assert(valid_component(c)) by {
                if len == 1 {
                    assert(c != "."@) by {
                        assert(c[0] == frag@[start as int]);
                    }
                }
                if len == 2 {
                    assert(c != ".."@) by {
                        assert(c[0] == frag@[start as int]);
                        assert(c[1] == frag@[start as int + 1]);
                    }
                }
                assert(!c.contains('/')) by {
                    assert(forall|k: int|
                        0 <= k < c.len() ==> #[trigger] c[k] == frag@[start + k] && c[k] != '/');
                }
            }
        }
        let owned = String::from_str(comp);
        acc.push(owned);
        proof {
            assert(acc.deep_view() =~= old(acc).deep_view().push(c));
        }
    }
}

/// Resolves a user-supplied fragment against the current directory into an
/// absolute, normalized path. No fragment is trusted: `.`, `..`, repeated
/// separators and absolute-looking strings are all folded into an absolute
/// path first, so the containment check that follows cannot be bypassed.
pub fn resolve(fragment: &str, cwd: &AbsPath) -> (r: AbsPath)
    requires
        cwd.wf(),
    ensures
        r@ == resolve_spec(fragment@, cwd@),
        r.wf(),
{
    let n = fragment.unicode_len();
    let mut acc: Vec<String>;
    if n > 0 && fragment.get_char(0) == '/' {
        acc = Vec::new();
        proof {
            assert(acc.deep_view() =~= Seq::<Seq<char>>::empty());
        }
    } else {
        acc = clone_parts(&cwd.parts);
    }
    proof {
        assert(fragment@.subrange(0, 0) =~= Seq::<char>::empty());
        assert(fragment@.skip(0) =~= fragment@);
    }
    let mut i: usize = 0;
    let mut start: usize = 0;
    while i < n
        invariant
            start <= i <= n == fragment@.len(),
            forall|j: int| start <= j < i ==> fragment@[j] != '/',
            path_wf(acc.deep_view()),
            normalize_from(
                acc.deep_view(),
                fragment@.subrange(start as int, i as int),
                fragment@.skip(i as int),
            ) == resolve_spec(fragment@, cwd@),
        decreases n - i,
    {
        let ghost cur = fragment@.subrange(start as int, i as int);
        let ghost rest = fragment@.skip(i as int);
        proof {
            assert(rest[0] == fragment@[i as int]);
            assert(rest.skip(1) =~= fragment@.skip(i as int + 1));
        }
        let c = fragment.get_char(i);
        if c == '/' {
            apply_component(&mut acc, fragment, start, i);
            start = i + 1;
            proof {
                assert(fragment@.subrange(start as int, start as int) =~= Seq::<char>::empty());
            }
        } else {
            proof {
                assert(cur.push(fragment@[i as int]) =~= fragment@.subrange(
                    start as int,
                    i as int + 1,
                ));
            }
        }
        i += 1;
    }
    proof {
        assert(fragment@.skip(n as int) =~= Seq::<char>::empty());
    }
    apply_component(&mut acc, fragment, start, n);
    AbsPath { parts: acc }
}

/// Copies a path's components; the copy denotes the same sequence.
pub fn clone_parts(v: &Vec<String>) -> (r: Vec<String>)
    ensures
        r.deep_view() == v.deep_view(),
{
    sub_parts(v, 0, v.len())
}

/// Copies the components `v[from..to]`.
pub fn sub_parts(v: &Vec<String>, from: usize, to: usize) -> (r: Vec<String>)
    requires
        from <= to <= v@.len(),
    ensures
        r.deep_view() == v.deep_view().subrange(from as int, to as int),
{
    let mut r: Vec<String> = Vec::new();
    let mut i: usize = from;
    while i < to
        invariant
            from <= i <= to <= v@.len(),
            r@.len() == i - from,
            forall|j: int| 0 <= j < r@.len() ==> r@[j] == v@[from + j],
        decreases to - i,
    {
        r.push(v[i].clone());
        i += 1;
    }
    proof {
        assert(r.deep_view() =~= v.deep_view().subrange(from as int, to as int));
    }
    r
}

/// Containment: `root` is a component-wise prefix of `p`. A string prefix is
/// not enough: `["world2"]` is not contained in root `["world"]`.
pub open spec fn contained(p: Seq<Seq<char>>, root: Seq<Seq<char>>) -> bool {
    root.is_prefix_of(p)
}

/// Checks that the sandbox root is a component-wise prefix of the resolved
/// path `p`; a command may touch the world tree only when this returns true.
pub fn verify_contained(p: &AbsPath, root: &AbsPath) -> (r: bool)
    ensures
        r == contained(p@, root@),
{
    if root.parts.len() > p.parts.len() {
        return false;
    }
    let mut i: usize = 0;
    while i < root.parts.len()
        invariant
            i <= root.parts.len() <= p.parts.len(),
            forall|j: int| 0 <= j < i ==> root@[j] == p@[j],
        decreases root.parts.len() - i,
    {
        if !(root.parts[i] == p.parts[i]) {
            proof {
                assert(contained(p@, root@) ==> root@[i as int] == p@.subrange(
                    0,
                    root@.len() as int,
                )[i as int]);
            }
            return false;
        }
        i += 1;
    }
    proof {
        assert(root@ =~= p@.subrange(0, root@.len() as int));
    }
    true
}

/// The components joined with the separator.
pub open spec fn join_components(parts: Seq<Seq<char>>) -> Seq<char>
    decreases parts.len(),
{
    if parts.len() == 0 {
        Seq::empty()
    } else if parts.len() == 1 {
        parts[0]
    } else {
        join_components(parts.drop_last()) + "/"@ + parts.last()
    }
}

/// How a path relative to the sandbox root is shown to the user: its
/// components joined with the separator, and the root itself as `.`.
pub open spec fn rel_display(rel: Seq<Seq<char>>) -> Seq<char> {
    if rel.len() == 0 {
        "."@
    } else {
        join_components(rel)
    }
}

/// Renders a root-relative path for display.
pub fn render_rel(rel: &Vec<String>) -> (s: String)
    ensures
        s@ == rel_display(rel.deep_view()),
{
    let ghost dv = rel.deep_view();
    if rel.len() == 0 {
        return String::from_str(".");
    }
    let mut s = String::new();
    let mut i: usize = 0;
    while i < rel.len()
        invariant
            i <= rel@.len(),
            dv == rel.deep_view(),
            i == 0 ==> s@ == Seq::<char>::empty(),
            i >= 1 ==> s@ == join_components(dv.take(i as int)),
        decreases rel@.len() - i,
    {
        if i > 0 {
            s.append("/");
        }
        s.append(rel[i].as_str());
        proof {
            assert(dv.take(i + 1).drop_last() =~= dv.take(i as int));
            if i == 0 {
                assert(s@ =~= dv[0]);
                assert(dv.take(1)[0] == dv[0]);
            }
        }
        i += 1;
    }
    proof {
        assert(dv.take(rel@.len() as int) =~= dv);
    }
    s
}

/// Shows `path` relative to `root`, never as the absolute filesystem path,
/// so that messages do not leak the host layout above the sandbox.
pub fn display_relative_path(path: &AbsPath, root: &AbsPath) -> (s: String)
    requires
        contained(path@, root@),
    ensures
        s@ == rel_display(path@.skip(root@.len() as int)),
{
    let rel = sub_parts(&path.parts, root.parts.len(), path.parts.len());
    proof {
        assert(rel.deep_view() =~= path@.skip(root@.len() as int));
    }
    render_rel(&rel)
}

} // verus!
