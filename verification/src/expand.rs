//! The path expander: search-path lookup of a bare command name.
//!
//! A candidate made of exactly one component is looked up in each
//! search-path directory in listed order, and the first directory where it
//! exists as a regular file wins. Anything else — a multi-component
//! candidate, or one found nowhere — passes through unchanged. Existence
//! as a file is all that is checked; executability is left to the
//! operating system.

use vstd::prelude::*;

use crate::fsmodel::{FsEntryModel, FsTable, is_file_at};
use crate::paths::{NodePath, PathModel, join_path, num_components};

verus! {

/// The first directory in `dirs`, from index `i` on, where the candidate
/// exists as a regular file, joined with the candidate.
pub open spec fn first_match(
    fsv: Seq<(PathModel, FsEntryModel)>,
    dirs: Seq<PathModel>,
    cand: PathModel,
    i: int,
) -> Option<PathModel>
    decreases dirs.len() - i,
{
    if i < 0 || i >= dirs.len() {
        None
    } else if is_file_at(fsv, join_path(dirs[i], cand)) {
        Some(join_path(dirs[i], cand))
    } else {
        first_match(fsv, dirs, cand, i + 1)
    }
}

/// What expanding `cand` against search directories `dirs` yields: the
/// first hit for a single-component candidate, the candidate itself
/// otherwise.
pub open spec fn expand_spec(
    fsv: Seq<(PathModel, FsEntryModel)>,
    dirs: Seq<PathModel>,
    cand: PathModel,
) -> PathModel {
    if num_components(cand) != 1 {
        cand
    } else {
        match first_match(fsv, dirs, cand, 0) {
            Option::Some(q) => q,
            Option::None => cand,
        }
    }
}

/// Lookup the full path of a command available in the search directories,
/// or return the input as-is.
pub fn expand_path(fs: &FsTable, dirs: &Vec<NodePath>, candidate: &NodePath) -> (r: NodePath)
    ensures
        r@ == expand_spec(fs@, dirs@.map_values(|d: NodePath| d@), candidate@),
{
    let ghost dirsv = dirs@.map_values(|d: NodePath| d@);
    let single: bool = if candidate.absolute {
        candidate.parts.len() == 0
    } else {
        candidate.parts.len() == 1
    };
    if !single {
        return candidate.dup();
    }
    let mut i: usize = 0;
    while i < dirs.len()
        invariant
            i <= dirs.len(),
            dirsv == dirs@.map_values(|d: NodePath| d@),
            num_components(candidate@) == 1,
            first_match(fs@, dirsv, candidate@, 0) == first_match(fs@, dirsv, candidate@, i as int),
        decreases dirs.len() - i,
    {
        let q = dirs[i].join(candidate);
        if fs.is_file(&q) {
            return q;
        }
        i = i + 1;
    }
    candidate.dup()
}

} // verus!
