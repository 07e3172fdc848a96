//! Paths that are put together from a directory and names below it.
use vstd::prelude::*;

verus! {

/// A path: a directory, and the names of what stands below it, one in the other.
#[derive(Debug)]
pub struct PlacedPath {
    pub root: String,
    pub names: Vec<&'static str>,
}

impl View for PlacedPath {
    type V = (Seq<char>, Seq<&'static str>);

    open spec fn view(&self) -> (Seq<char>, Seq<&'static str>) {
        (self.root@, self.names@)
    }
}

/// The paths of a row.
pub open spec fn path_views(paths: Seq<PlacedPath>) -> Seq<(Seq<char>, Seq<&'static str>)> {
    Seq::new(paths.len(), |i: int| paths[i]@)
}

/// The path below `root` with the given names.
pub fn placed(root: &str, names: Vec<&'static str>) -> (r: PlacedPath)
    ensures
        r@ == (root@, names@),
{
    PlacedPath { root: root.to_string(), names }
}

/// Adds the path below `root` with the given names.
pub fn add_path(paths: &mut Vec<PlacedPath>, root: &str, names: Vec<&'static str>)
    ensures
        path_views(final(paths)@) == path_views(old(paths)@).push((root@, names@)),
{
    let ghost before = path_views(paths@);
    paths.push(placed(root, names));
    assert(path_views(paths@) =~= before.push((root@, names@)));
}

} // verus!
