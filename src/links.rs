use vstd::prelude::*;
use crate::path::{change_base_path, is_prefix_of, rebased, PathError, PathParts, PathView};

verus! {

/// A symbolic link: `dst` is where the link stands, `src` the target
/// recorded in it, as written (it need not exist nor be absolute).
#[derive(Debug)]
pub struct Symlink {
    pub src: PathParts,
    pub dst: PathParts,
}

/// The mathematical value of a [`Symlink`].
pub struct SymlinkView {
    pub src: PathView,
    pub dst: PathView,
}

impl View for Symlink {
    type V = SymlinkView;

    open spec fn view(&self) -> SymlinkView {
        SymlinkView { src: self.src@, dst: self.dst@ }
    }
}

/// An entry met while walking a directory without following links, with
/// the target recorded in it when it is a link.
#[derive(Debug)]
pub struct WalkEntry {
    pub path: PathParts,
    pub link_target: Option<PathParts>,
}

/// The views of a sequence of links.
pub open spec fn link_views(ls: Seq<Symlink>) -> Seq<SymlinkView> {
    ls.map_values(|l: Symlink| l@)
}

/// The entry is a link whose recorded target lies under `prefix`.
pub open spec fn points_under(e: WalkEntry, prefix: PathView) -> bool {
    match e.link_target {
        Some(t) => is_prefix_of(prefix, t@),
        None => false,
    }
}

/// The links among `entries` whose target lies under `prefix`, in the order
/// of the walk.
pub open spec fn links_under(entries: Seq<WalkEntry>, prefix: PathView) -> Seq<SymlinkView>
    decreases entries.len(),
{
    if entries.len() == 0 {
        Seq::empty()
    } else {
        let rest = links_under(entries.drop_last(), prefix);
        let e = entries.last();
        if points_under(e, prefix) {
            rest.push(SymlinkView { src: e.link_target.unwrap()@, dst: e.path@ })
        } else {
            rest
        }
    }
}

/// `l` comes from an entry of `entries` that is a link whose recorded
/// target, `l.src`, lies under `prefix`, and which stands at `l.dst`.
pub open spec fn picked_from(entries: Seq<WalkEntry>, prefix: PathView, l: SymlinkView) -> bool {
    &&& is_prefix_of(prefix, l.src)
    &&& exists|j: int|
        0 <= j < entries.len() && points_under(entries[j], prefix)
            && entries[j].link_target.unwrap()@ == l.src && entries[j].path@ == l.dst
}

/// Each link picked from `entries` comes from an entry that is a link
/// whose recorded target lies under `prefix`.
pub proof fn lemma_links_under_sound(entries: Seq<WalkEntry>, prefix: PathView)
    ensures
        forall|k: int|
            0 <= k < links_under(entries, prefix).len() ==> picked_from(
                entries,
                prefix,
                #[trigger] links_under(entries, prefix)[k],
            ),
    decreases entries.len(),
{
    if entries.len() > 0 {
        let init = entries.drop_last();
        lemma_links_under_sound(init, prefix);
        assert forall|k: int| 0 <= k < links_under(entries, prefix).len() implies picked_from(
            entries,
            prefix,
            #[trigger] links_under(entries, prefix)[k],
        ) by {
            if k < links_under(init, prefix).len() {
                assert(links_under(entries, prefix)[k] == links_under(init, prefix)[k]);
                assert(picked_from(init, prefix, links_under(init, prefix)[k]));
                let j = choose|j: int|
                    0 <= j < init.len() && points_under(init[j], prefix)
                        && init[j].link_target.unwrap()@ == links_under(init, prefix)[k].src
                        && init[j].path@ == links_under(init, prefix)[k].dst;
                assert(entries[j] == init[j]);
            } else {
                let j = entries.len() - 1;
                assert(entries[j] == entries.last());
            }
        }
    }
}

/// Picks, from the entries of a walk of a directory that did not follow
/// links, every link whose recorded target lies under `prefix`, as a
/// [`Symlink`] from that target to the link's place. A directory that does
/// not exist has none.
pub fn find_prefix_symlink(dir_exists: bool, entries: &Vec<WalkEntry>, prefix: &PathParts) -> (r:
    Vec<Symlink>)
    ensures
        !dir_exists ==> r@.len() == 0,
        dir_exists ==> link_views(r@) == links_under(entries@, prefix@),
        forall|k: int| 0 <= k < r@.len() ==> picked_from(entries@, prefix@, #[trigger] r@[k]@),
{
    let mut found: Vec<Symlink> = Vec::new();
    if !dir_exists {
        return found;
    }
    let mut i: usize = 0;
    while i < entries.len()
        invariant
            0 <= i <= entries.len(),
            link_views(found@) == links_under(entries@.subrange(0, i as int), prefix@),
        decreases entries.len() - i,
    {
        let entry = &entries[i];
        let ghost before = found@;
        assert(entries@.subrange(0, i + 1).drop_last() =~= entries@.subrange(0, i as int));
        assert(entries@.subrange(0, i + 1).last() == entries@[i as int]);
        match &entry.link_target {
            Some(target) => {
                if target.starts_with(prefix) {
                    let link = Symlink { src: target.duplicate(), dst: entry.path.duplicate() };
                    found.push(link);
                    assert(link_views(found@) =~= link_views(before).push(link@));
                }
            },
            None => {},
        }
        i = i + 1;
    }
    assert(entries@.subrange(0, entries@.len() as int) =~= entries@);
    proof {
        lemma_links_under_sound(entries@, prefix@);
        assert forall|k: int| 0 <= k < found@.len() implies picked_from(
            entries@,
            prefix@,
            #[trigger] found@[k]@,
        ) by {
            assert(link_views(found@)[k] == found@[k]@);
            assert(links_under(entries@, prefix@)[k] == found@[k]@);
        }
    }
    found
}

/// Plans the expansion of the directory link at `link`, whose recorded
/// target is `point_to` and through which `children` are seen: the link
/// gives way to a real directory holding, for each child, a new link at the
/// child's place whose target is the child's place rebased onto
/// `point_to`. Fails with `PathStructure`, before anything is planned,
/// when a child does not lie under `link`.
pub fn expand_symlink_dir(link: &PathParts, point_to: &PathParts, children: &Vec<PathParts>) -> (r:
    Result<Vec<Symlink>, PathError>)
    ensures
        (forall|i: int| 0 <= i < children@.len() ==> is_prefix_of(link@, children@[i]@)) ==> (
        r is Ok && r->Ok_0@.len() == children@.len() && forall|i: int|
            0 <= i < children@.len() ==> (#[trigger] r->Ok_0@[i])@ == (SymlinkView {
                src: rebased(children@[i]@, link@, point_to@),
                dst: children@[i]@,
            })),
        (exists|i: int| 0 <= i < children@.len() && !is_prefix_of(link@, children@[i]@)) ==> r
            == Err::<Vec<Symlink>, PathError>(PathError::PathStructure),
{
    let mut plan: Vec<Symlink> = Vec::new();
    let mut i: usize = 0;
    while i < children.len()
        invariant
            0 <= i <= children.len(),
            plan@.len() == i,
            forall|j: int| 0 <= j < i ==> is_prefix_of(link@, children@[j]@),
            forall|j: int|
                0 <= j < i ==> (#[trigger] plan@[j])@ == (SymlinkView {
                    src: rebased(children@[j]@, link@, point_to@),
                    dst: children@[j]@,
                }),
        decreases children.len() - i,
    {
        match change_base_path(&children[i], link, point_to) {
            Ok(target) => {
                plan.push(Symlink { src: target, dst: children[i].duplicate() });
            },
            Err(e) => {
                return Err(e);
            },
        }
        i = i + 1;
    }
    Ok(plan)
}

} // verus!
