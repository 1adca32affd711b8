use vstd::prelude::*;
use crate::path::{change_base_path, is_prefix_of, rebased, PathError, PathParts, PathView};
use crate::probe::{effectively_empty, is_empty_dir, WalkItem};

verus! {

/// What an entry of the source directory is, following links.
#[derive(Debug, Clone, Copy, PartialEq, Eq, Structural)]
pub enum EntryKind {
    File,
    Dir,
    /// Neither, such as a broken link.
    Other,
}

/// An immediate entry of the source directory, with what a walk
/// following links met under it (only read for directories).
#[derive(Debug)]
pub struct SourceChild {
    pub path: PathParts,
    pub kind: EntryKind,
    pub walk: Vec<WalkItem>,
}

/// The views of a sequence of paths.
pub open spec fn path_views(ps: Seq<PathParts>) -> Seq<PathView> {
    ps.map_values(|p: PathParts| p@)
}

/// Some path of `present` equals `p`.
pub open spec fn is_present(p: PathView, present: Seq<PathView>) -> bool {
    exists|j: int| 0 <= j < present.len() && present[j] == p
}

/// The entry lies under the source directory.
pub open spec fn child_under(c: SourceChild, source: PathView) -> bool {
    is_prefix_of(source, c.path@)
}

/// The entry has no counterpart in the mirror and carries content: it is a
/// file, or a directory that is not effectively empty.
pub open spec fn is_gap(
    c: SourceChild,
    source: PathView,
    mirror: PathView,
    present: Seq<PathView>,
) -> bool {
    &&& !is_present(rebased(c.path@, source, mirror), present)
    &&& (c.kind == EntryKind::File || (c.kind == EntryKind::Dir && !effectively_empty(
        true,
        true,
        c.walk@,
    )))
}

/// Every entry before `i` lies under the source and is no gap.
pub open spec fn clean_before(
    cs: Seq<SourceChild>,
    source: PathView,
    mirror: PathView,
    present: Seq<PathView>,
    i: int,
) -> bool {
    forall|j: int| 0 <= j < i ==> child_under(cs[j], source) && !is_gap(cs[j], source, mirror, present)
}

/// Whether the source directory holds an immediate entry that the mirror
/// lacks: a file, or a directory with a file somewhere beneath it, whose
/// counterpart under `mirror` is not among `present` (the paths that exist
/// in the mirror directory). A missing source directory has none. Entries
/// are taken in order; one that does not lie under `source` stops the
/// scan with `PathStructure`.
pub fn has_new_sub(
    source: &PathParts,
    mirror: &PathParts,
    source_exists: bool,
    children: &Vec<SourceChild>,
    present: &Vec<PathParts>,
) -> (r: Result<bool, PathError>)
    ensures
        !source_exists ==> r == Ok::<bool, PathError>(false),
        source_exists ==> match r {
            Ok(true) => exists|i: int|
                0 <= i < children@.len() && child_under(children@[i], source@) && is_gap(
                    children@[i],
                    source@,
                    mirror@,
                    path_views(present@),
                ) && clean_before(children@, source@, mirror@, path_views(present@), i),
            Ok(false) => clean_before(
                children@,
                source@,
                mirror@,
                path_views(present@),
                children@.len() as int,
            ),
            Err(e) => e == PathError::PathStructure && exists|i: int|
                0 <= i < children@.len() && !child_under(children@[i], source@) && clean_before(
                    children@,
                    source@,
                    mirror@,
                    path_views(present@),
                    i,
                ),
        },
        clean_before(children@, source@, mirror@, path_views(present@), children@.len() as int)
            ==> r == Ok::<bool, PathError>(false),
        source_exists && (forall|j: int| 0 <= j < children@.len() ==> child_under(children@[j], source@))
            && (exists|i: int| 0 <= i < children@.len() && is_gap(children@[i], source@, mirror@, path_views(present@)))
            ==> r == Ok::<bool, PathError>(true),
{
    if !source_exists {
        return Ok(false);
    }
    let ghost pv = path_views(present@);
    let mut i: usize = 0;
    while i < children.len()
        invariant
            0 <= i <= children.len(),
            source_exists,
            pv == path_views(present@),
            clean_before(children@, source@, mirror@, pv, i as int),
        decreases children.len() - i,
    {
        let child = &children[i];
        let counterpart = match change_base_path(&child.path, source, mirror) {
            Ok(p) => p,
            Err(e) => {
                return Err(e);
            },
        };
        let mut found = false;
        let mut k: usize = 0;
        while k < present.len()
            invariant
                0 <= k <= present.len(),
                pv == path_views(present@),
                found == exists|j: int| 0 <= j < k && pv[j] == counterpart@,
            decreases present.len() - k,
        {
            assert(pv[k as int] == present@[k as int]@);
            if present[k].same_as(&counterpart) {
                found = true;
            }
            k = k + 1;
        }
        if !found {
            if child.kind == EntryKind::File {
                return Ok(true);
            }
            if child.kind == EntryKind::Dir && !is_empty_dir(true, true, &child.walk) {
                return Ok(true);
            }
        }
        i = i + 1;
    }
    Ok(false)
}

} // verus!
