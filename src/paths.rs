//! Paths as sequences of components, compared component by component.

use vstd::prelude::*;

verus! {

/// `base` is a leading run of the components of `path` (an empty `base` leads
/// every path).
pub open spec fn is_prefix(base: Seq<Seq<char>>, path: Seq<Seq<char>>) -> bool {
    base.len() <= path.len() && path.subrange(0, base.len() as int) == base
}

/// The path made of the current-directory component alone: `.`.
pub open spec fn cur_dir() -> Seq<Seq<char>> {
    seq![seq!['.']]
}

/// The components joined by `/`.
pub open spec fn join_parts(parts: Seq<Seq<char>>) -> Seq<char>
    decreases parts.len(),
{
    if parts.len() == 0 {
        Seq::empty()
    } else if parts.len() == 1 {
        parts[0]
    } else {
        join_parts(parts.drop_last()) + seq!['/'] + parts.last()
    }
}

/// The path taken relative to the current directory: a leading `.`
/// component dropped.
pub open spec fn rel_of(path: Seq<Seq<char>>) -> Seq<Seq<char>> {
    if path.len() > 0 && path[0] == seq!['.'] {
        path.drop_first()
    } else {
        path
    }
}

/// The entry `name` inside directory `dir`, written `dir/name`.
pub open spec fn in_dir(dir: Seq<char>, name: Seq<char>) -> Seq<char> {
    dir + seq!['/'] + name
}

/// `rel` (a relative path) joined onto `base`, with a `/` between them
/// unless `base` is empty or already ends with one.
pub open spec fn joined(base: Seq<char>, rel: Seq<char>) -> Seq<char> {
    if base.len() > 0 && base.last() != '/' {
        base + seq!['/'] + rel
    } else {
        base + rel
    }
}

/// A path split into its components: `.` for the current directory, `..` for
/// the parent, `/` for the root, and each name as it stands.
pub struct PathParts {
    pub parts: Vec<String>,
}

impl View for PathParts {
    type V = Seq<Seq<char>>;

    open spec fn view(&self) -> Seq<Seq<char>> {
        self.parts@.map_values(|s: String| s@)
    }
}

impl PathParts {
    /// Whether `base` is a leading run of this path's components.
    pub fn starts_with(&self, base: &PathParts) -> (r: bool)
        ensures
            r == is_prefix(base@, self@),
    {
        if base.parts.len() > self.parts.len() {
            return false;
        }
        let mut i: usize = 0;
        while i < base.parts.len()
            invariant
                base.parts.len() <= self.parts.len(),
                0 <= i <= base.parts.len(),
                forall|j: int| 0 <= j < i ==> self@[j] == base@[j],
            decreases base.parts.len() - i,
        {
            if self.parts[i] != base.parts[i] {
                assert(self@.subrange(0, base@.len() as int)[i as int] != base@[i as int]);
                return false;
            }
            i += 1;
        }
        assert(self@.subrange(0, base@.len() as int) =~= base@);
        true
    }

    /// Whether this path is `.` alone.
    pub fn is_cur_dir(&self) -> (r: bool)
        ensures
            r == (self@ == cur_dir()),
    {
        if self.parts.len() != 1 {
            assert(self@.len() != cur_dir().len());
            return false;
        }
        let r = is_dot_component(&self.parts[0]);
        if r {
            assert(self@ =~= cur_dir());
        } else {
            assert(self@[0] != cur_dir()[0]);
        }
        r
    }

    /// Whether `base` leads this path once both are taken relative to the
    /// current directory (a leading `.` dropped from each).
    pub fn starts_with_rel(&self, base: &PathParts) -> (r: bool)
        ensures
            r == is_prefix(rel_of(base@), rel_of(self@)),
    {
        let sp: usize = if self.parts.len() > 0 && is_dot_component(&self.parts[0]) {
            1
        } else {
            0
        };
        let bp: usize = if base.parts.len() > 0 && is_dot_component(&base.parts[0]) {
            1
        } else {
            0
        };
        let ghost rp = rel_of(self@);
        let ghost rb = rel_of(base@);
        assert(rp =~= self@.skip(sp as int));
        assert(rb =~= base@.skip(bp as int));
        assert(rp.len() == self@.len() - sp);
        assert(rb.len() == base@.len() - bp);
        if base.parts.len() - bp > self.parts.len() - sp {
            return false;
        }
        let n = base.parts.len() - bp;
        let mut i: usize = 0;
        while i < n
            invariant
                n == base.parts.len() - bp,
                n <= self.parts.len() - sp,
                bp <= base.parts.len(),
                sp <= self.parts.len(),
                rp == self@.skip(sp as int),
                rb == base@.skip(bp as int),
                rp == rel_of(self@),
                rb == rel_of(base@),
                0 <= i <= n,
                forall|j: int| 0 <= j < i ==> rp[j] == rb[j],
            decreases n - i,
        {
            assert(rp[i as int] == self@[sp + i]);
            assert(rb[i as int] == base@[bp + i]);
            if self.parts[sp + i] != base.parts[bp + i] {
                assert(rp.subrange(0, rb.len() as int)[i as int] != rb[i as int]);
                return false;
            }
            i += 1;
        }
        assert(rp.subrange(0, rb.len() as int) =~= rb);
        true
    }
}

/// Whether the component is `.`.
pub fn is_dot_component(s: &String) -> (r: bool)
    ensures
        r == (s@ == seq!['.']),
{
    let t = s.as_str();
    if t.unicode_len() != 1 {
        return false;
    }
    let c = t.get_char(0);
    if c == '.' {
        assert(s@ =~= seq!['.']);
        true
    } else {
        false
    }
}

/// `path` with `root` taken off its front where `root` leads it; `path`
/// itself otherwise.
pub fn relative_to(path: &PathParts, root: &PathParts) -> (r: PathParts)
    ensures
        r@ == if is_prefix(root@, path@) {
            path@.skip(root@.len() as int)
        } else {
            path@
        },
{
    let leads = path.starts_with(root);
    let start: usize = if leads {
        root.parts.len()
    } else {
        0
    };
    let mut parts: Vec<String> = Vec::new();
    let mut i: usize = start;
    while i < path.parts.len()
        invariant
            start <= i <= path.parts.len(),
            start == if leads {
                root@.len()
            } else {
                0
            },
            leads == is_prefix(root@, path@),
            parts@.map_values(|s: String| s@) =~= path@.subrange(start as int, i as int),
        decreases path.parts.len() - i,
    {
        let ghost before = parts@;
        parts.push(path.parts[i].clone());
        proof {
            assert(parts@ == before.push(path.parts@[i as int]));
            assert(parts@.map_values(|s: String| s@) =~= before.map_values(|s: String| s@).push(
                path@[i as int],
            ));
        }
        i += 1;
    }
    let r = PathParts { parts };
    assert(r@ =~= path@.skip(start as int));
    r
}

/// The path `dir/name`.
pub fn in_dir_path(dir: &str, name: &str) -> (r: String)
    ensures
        r@ == in_dir(dir@, name@),
{
    let mut r = dir.to_owned();
    let sep = "/";
    proof {
        reveal_strlit("/");
    }
    r.append(sep);
    r.append(name);
    r
}

/// The relative path `rel` joined onto `base`.
pub fn join_path(base: &str, rel: &str) -> (r: String)
    ensures
        r@ == joined(base@, rel@),
{
    let mut r = base.to_owned();
    let n = base.unicode_len();
    if n > 0 && base.get_char(n - 1) != '/' {
        let sep = "/";
        proof {
            reveal_strlit("/");
        }
        r.append(sep);
    }
    r.append(rel);
    r
}

} // verus!
