use vstd::prelude::*;

verus! {

/// One entry met while walking a directory and following its links.
#[derive(Debug, Clone, Copy, PartialEq, Eq, Structural)]
pub enum WalkItem {
    /// The entry resolves to a regular file.
    File,
    /// A directory, a broken link, or anything else that is no regular file.
    Other,
    /// The walk came back to a place it had already seen, or could not
    /// read an entry; counted as content, to stay on the safe side.
    Failed,
}

/// A directory is effectively empty when it does not exist, or when it is
/// a directory and its walk met nothing but entries that are no files.
pub open spec fn effectively_empty(dir_exists: bool, is_dir: bool, walk: Seq<WalkItem>) -> bool {
    !dir_exists || (is_dir && forall|i: int| 0 <= i < walk.len() ==> walk[i] == WalkItem::Other)
}

/// Decides whether a directory holds no regular file at any depth, given
/// whether it exists, whether it is a directory, and the entries that a
/// walk following links met under it. Stops at the first entry that
/// settles it.
pub fn is_empty_dir(dir_exists: bool, is_dir: bool, walk: &Vec<WalkItem>) -> (r: bool)
    ensures
        r == effectively_empty(dir_exists, is_dir, walk@),
{
    if !dir_exists {
        return true;
    }
    if !is_dir {
        return false;
    }
    let mut i: usize = 0;
    while i < walk.len()
        invariant
            0 <= i <= walk.len(),
            dir_exists && is_dir,
            forall|j: int| 0 <= j < i ==> walk@[j] == WalkItem::Other,
        decreases walk.len() - i,
    {
        match walk[i] {
            WalkItem::Other => {},
            _ => {
                assert(walk@[i as int] != WalkItem::Other);
                return false;
            },
        }
        i = i + 1;
    }
    true
}

} // verus!
