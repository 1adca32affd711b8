use vstd::prelude::*;

verus! {

/// What can go wrong in the pure path logic.
#[derive(Debug, Clone, Copy, PartialEq, Eq, Structural)]
pub enum PathError {
    /// A path does not lie under the base it was expected under.
    PathStructure,
    /// Path text could not be decoded, or an expansion in it failed.
    InvalidPath,
}

/// A filesystem path as its components: whether it starts at the root,
/// and the names that follow (`.` and `..` kept as names).
#[derive(Debug)]
pub struct PathParts {
    pub absolute: bool,
    pub parts: Vec<String>,
}

/// The mathematical value of a [`PathParts`].
pub struct PathView {
    pub absolute: bool,
    pub parts: Seq<Seq<char>>,
}

impl View for PathParts {
    type V = PathView;

    open spec fn view(&self) -> PathView {
        PathView { absolute: self.absolute, parts: self.parts@.map_values(|s: String| s@) }
    }
}

/// `base` is a prefix of `p`, component by component (the root counts).
pub open spec fn is_prefix_of(base: PathView, p: PathView) -> bool {
    &&& base.absolute == p.absolute
    &&& base.parts.len() <= p.parts.len()
    &&& p.parts.subrange(0, base.parts.len() as int) == base.parts
}

/// `new_base` followed by what remains of `p` once `base` is taken off.
pub open spec fn rebased(p: PathView, base: PathView, new_base: PathView) -> PathView {
    PathView { absolute: new_base.absolute, parts: new_base.parts + p.parts.skip(base.parts.len() as int) }
}

/// `p` with one more component, `name`.
pub open spec fn joined(p: PathView, name: Seq<char>) -> PathView {
    PathView { absolute: p.absolute, parts: p.parts.push(name) }
}

impl PathParts {
    /// Whether the two paths have the same components.
    pub fn same_as(&self, other: &PathParts) -> (r: bool)
        ensures
            r == (self@ == other@),
    {
        if self.absolute != other.absolute || self.parts.len() != other.parts.len() {
            proof {
                if self@ == other@ {
                    assert(self@.parts.len() == self.parts@.len());
                }
            }
            return false;
        }
        let mut i: usize = 0;
        while i < self.parts.len()
            invariant
                0 <= i <= self.parts.len(),
                self.parts.len() == other.parts.len(),
                self.absolute == other.absolute,
                forall|j: int| 0 <= j < i ==> self.parts@[j]@ == other.parts@[j]@,
            decreases self.parts.len() - i,
        {
            if self.parts[i] != other.parts[i] {
                proof {
                    if self@ == other@ {
                        assert(self@.parts[i as int] == other@.parts[i as int]);
                    }
                }
                return false;
            }
            i = i + 1;
        }
        assert(self@.parts =~= other@.parts);
        true
    }

    /// Whether `base` is a prefix of this path, component by component.
    pub fn starts_with(&self, base: &PathParts) -> (r: bool)
        ensures
            r == is_prefix_of(base@, self@),
    {
        if self.absolute != base.absolute || base.parts.len() > self.parts.len() {
            return false;
        }
        let mut i: usize = 0;
        while i < base.parts.len()
            invariant
                0 <= i <= base.parts.len() <= self.parts.len(),
                forall|j: int| 0 <= j < i ==> self.parts@[j]@ == base.parts@[j]@,
            decreases base.parts.len() - i,
        {
            if self.parts[i] != base.parts[i] {
                proof {
                    if is_prefix_of(base@, self@) {
                        assert(self@.parts.subrange(0, base@.parts.len() as int)[i as int]
                            == self@.parts[i as int]);
                    }
                }
                return false;
            }
            i = i + 1;
        }
        assert(self@.parts.subrange(0, base@.parts.len() as int) =~= base@.parts);
        true
    }

    /// A copy with the same components.
    pub fn duplicate(&self) -> (r: PathParts)
        ensures
            r@ == self@,
    {
        let mut parts: Vec<String> = Vec::new();
        let mut i: usize = 0;
        while i < self.parts.len()
            invariant
                0 <= i <= self.parts.len(),
                parts@.len() == i,
                forall|j: int| 0 <= j < i ==> parts@[j]@ == self.parts@[j]@,
            decreases self.parts.len() - i,
        {
            parts.push(self.parts[i].clone());
            i = i + 1;
        }
        let r = PathParts { absolute: self.absolute, parts };
        assert(r@.parts =~= self@.parts);
        r
    }
}

/// Moves `path` from under `base` to under `new_base`, keeping what follows
/// the base. Fails with `PathStructure` when `path` is not under `base`.
pub fn change_base_path(path: &PathParts, base: &PathParts, new_base: &PathParts) -> (r: Result<
    PathParts,
    PathError,
>)
    ensures
        is_prefix_of(base@, path@) ==> r is Ok && r->Ok_0@ == rebased(path@, base@, new_base@),
        !is_prefix_of(base@, path@) ==> r == Err::<PathParts, PathError>(PathError::PathStructure),
{
    if !path.starts_with(base) {
        return Err(PathError::PathStructure);
    }
    let mut out = new_base.duplicate();
    let mut i: usize = base.parts.len();
    while i < path.parts.len()
        invariant
            base.parts.len() <= i <= path.parts.len(),
            out.absolute == new_base.absolute,
            out@.parts == new_base@.parts + path@.parts.subrange(base.parts.len() as int, i as int),
        decreases path.parts.len() - i,
    {
        let name = path.parts[i].clone();
        let ghost before = out@.parts;
        out.parts.push(name);
        proof {
            assert(out@.parts =~= before.push(path@.parts[i as int]));
            assert(path@.parts.subrange(base.parts.len() as int, i + 1) =~= path@.parts.subrange(
                base.parts.len() as int,
                i as int,
            ).push(path@.parts[i as int]));
            assert(out@.parts =~= new_base@.parts + path@.parts.subrange(
                base.parts.len() as int,
                i + 1,
            ));
        }
        i = i + 1;
    }
    assert(path@.parts.skip(base.parts.len() as int) =~= path@.parts.subrange(
        base.parts.len() as int,
        path.parts.len() as int,
    ));
    Ok(out)
}

/// Rebasing onto another base and back gives the path that was started
/// from, and the intermediate path lies under the new base.
pub proof fn lemma_rebase_round_trip(p: PathView, base: PathView, new_base: PathView)
    requires
        is_prefix_of(base, p),
    ensures
        is_prefix_of(new_base, rebased(p, base, new_base)),
        rebased(rebased(p, base, new_base), new_base, base) == p,
{
    let mid = rebased(p, base, new_base);
    let rest = p.parts.skip(base.parts.len() as int);
    assert(mid.parts.subrange(0, new_base.parts.len() as int) =~= new_base.parts);
    assert(mid.parts.skip(new_base.parts.len() as int) =~= rest);
    assert(base.parts + rest =~= p.parts);
}

/// The entry `name` of `base` lies under `base`, and rebasing it onto
/// `new_base` gives the entry of the same name there.
pub proof fn lemma_child_rebases_to_child(base: PathView, new_base: PathView, name: Seq<char>)
    ensures
        is_prefix_of(base, joined(base, name)),
        rebased(joined(base, name), base, new_base) == joined(new_base, name),
{
    let child = joined(base, name);
    assert(child.parts.subrange(0, base.parts.len() as int) =~= base.parts);
    assert(child.parts.skip(base.parts.len() as int) =~= seq![name]);
    assert(new_base.parts + seq![name] =~= new_base.parts.push(name));
}

} // verus!
