//! An explicit filesystem table, and the probe that reads it.
//!
//! The resolution logic only ever asks one question of the filesystem: what
//! a single path is (missing, an ordinary node, or a symbolic link with a
//! target). `Probe` is that answer as a value. `FsTable` is a finite
//! in-memory filesystem against which the whole engine is verified and
//! tested; a real program obtains the same `Probe` answers from the
//! operating system instead and feeds them to the search machine.

use vstd::prelude::*;

use crate::paths::{NodePath, PathModel};

verus! {

/// Model of one filesystem entry.
pub enum FsEntryModel {
    /// An existing regular file.
    File,
    /// An existing node that is neither a regular file nor a symlink target
    /// holder (a directory, device, ...).
    Dir,
    /// A symbolic link and its literal, uninterpreted target.
    Link(PathModel),
    /// A node whose metadata cannot be read (permission denied and the like).
    Denied,
}

/// One filesystem entry.
#[derive(Debug)]
pub enum FsEntry {
    File,
    Dir,
    Link(NodePath),
    Denied,
}

impl View for FsEntry {
    type V = FsEntryModel;

    open spec fn view(&self) -> FsEntryModel {
        match self {
            FsEntry::File => FsEntryModel::File,
            FsEntry::Dir => FsEntryModel::Dir,
            FsEntry::Link(t) => FsEntryModel::Link(t@),
            FsEntry::Denied => FsEntryModel::Denied,
        }
    }
}

/// Model of what probing one path reports.
pub enum ProbeModel {
    /// The path, or some prefix of it, does not exist.
    Missing,
    /// The path exists and is not a symbolic link.
    NotLink,
    /// The path is a symbolic link with this literal target.
    Link(PathModel),
    /// Reading the path's metadata failed for another reason.
    Denied,
}

/// What probing one path reports.
#[derive(Debug)]
pub enum Probe {
    Missing,
    NotLink,
    Link(NodePath),
    Denied,
}

impl View for Probe {
    type V = ProbeModel;

    open spec fn view(&self) -> ProbeModel {
        match self {
            Probe::Missing => ProbeModel::Missing,
            Probe::NotLink => ProbeModel::NotLink,
            Probe::Link(t) => ProbeModel::Link(t@),
            Probe::Denied => ProbeModel::Denied,
        }
    }
}

/// A finite filesystem: paths with their entries, earlier rows shadowing
/// later ones.
pub struct FsTable {
    pub entries: Vec<(NodePath, FsEntry)>,
}

impl View for FsTable {
    type V = Seq<(PathModel, FsEntryModel)>;

    open spec fn view(&self) -> Seq<(PathModel, FsEntryModel)> {
        self.entries@.map_values(|e: (NodePath, FsEntry)| (e.0@, e.1@))
    }
}

/// The entry recorded for `p`: the first row whose path is `p`, if any.
pub open spec fn lookup(fsv: Seq<(PathModel, FsEntryModel)>, p: PathModel) -> Option<FsEntryModel>
    decreases fsv.len(),
{
    if fsv.len() == 0 {
        None
    } else if fsv[0].0 == p {
        Some(fsv[0].1)
    } else {
        lookup(fsv.drop_first(), p)
    }
}

/// What probing `p` reports against the table `fsv`.
pub open spec fn probe_spec(fsv: Seq<(PathModel, FsEntryModel)>, p: PathModel) -> ProbeModel {
    match lookup(fsv, p) {
        Option::None => ProbeModel::Missing,
        Option::Some(FsEntryModel::File) => ProbeModel::NotLink,
        Option::Some(FsEntryModel::Dir) => ProbeModel::NotLink,
        Option::Some(FsEntryModel::Link(t)) => ProbeModel::Link(t),
        Option::Some(FsEntryModel::Denied) => ProbeModel::Denied,
    }
}

/// Whether `p` exists as a regular file.
pub open spec fn is_file_at(fsv: Seq<(PathModel, FsEntryModel)>, p: PathModel) -> bool {
    lookup(fsv, p) == Some(FsEntryModel::File)
}

/// A sane filesystem: the root directory is not itself a symbolic link.
pub open spec fn fs_ok(fsv: Seq<(PathModel, FsEntryModel)>) -> bool {
    !(probe_spec(fsv, PathModel { absolute: true, parts: Seq::<Seq<char>>::empty() })
        is Link)
}

impl FsTable {
    /// The empty filesystem: every probe reports `Missing`.
    pub fn new() -> (r: FsTable)
        ensures
            r@ == Seq::<(PathModel, FsEntryModel)>::empty(),
    {
        let r = FsTable { entries: Vec::new() };
        proof {
            assert(r@ =~= Seq::<(PathModel, FsEntryModel)>::empty());
        }
        r
    }

    /// Record `entry` for `path`. An already-present path keeps its first
    /// recording: lookups take the earliest row.
    pub fn add(&mut self, path: NodePath, entry: FsEntry)
        ensures
            final(self)@ == old(self)@.push((path@, entry@)),
    {
        let ghost pv = path@;
        let ghost ev = entry@;
        self.entries.push((path, entry));
        proof {
            assert(final(self)@ =~= old(self)@.push((pv, ev)));
        }
    }

    /// Probe `p` against this table.
    pub fn probe(&self, p: &NodePath) -> (r: Probe)
        ensures
            r@ == probe_spec(self@, p@),
    {
        let mut i: usize = 0;
        proof {
            assert(self@.skip(0) =~= self@);
        }
        while i < self.entries.len()
            invariant
                i <= self.entries.len(),
                lookup(self@, p@) == lookup(self@.skip(i as int), p@),
            decreases self.entries.len() - i,
        {
            proof {
                assert(self@.skip(i as int)[0] == (self.entries@[i as int].0@,
                    self.entries@[i as int].1@));
            }
            if self.entries[i].0.path_eq(p) {
                match &self.entries[i].1 {
                    FsEntry::File => {
                        return Probe::NotLink;
                    },
                    FsEntry::Dir => {
                        return Probe::NotLink;
                    },
                    FsEntry::Link(t) => {
                        let target = t.dup();
                        return Probe::Link(target);
                    },
                    FsEntry::Denied => {
                        return Probe::Denied;
                    },
                }
            }
            proof {
                assert(self@.skip(i as int).drop_first() =~= self@.skip(i as int + 1));
            }
            i = i + 1;
        }
        proof {
            assert(self@.skip(i as int).len() == 0);
        }
        Probe::Missing
    }

    /// Whether `p` exists as a regular file in this table.
    pub fn is_file(&self, p: &NodePath) -> (r: bool)
        ensures
            r == is_file_at(self@, p@),
    {
        let mut i: usize = 0;
        proof {
            assert(self@.skip(0) =~= self@);
        }
        while i < self.entries.len()
            invariant
                i <= self.entries.len(),
                lookup(self@, p@) == lookup(self@.skip(i as int), p@),
            decreases self.entries.len() - i,
        {
            proof {
                assert(self@.skip(i as int)[0] == (self.entries@[i as int].0@,
                    self.entries@[i as int].1@));
            }
            if self.entries[i].0.path_eq(p) {
                return matches!(&self.entries[i].1, FsEntry::File);
            }
            proof {
                assert(self@.skip(i as int).drop_first() =~= self@.skip(i as int + 1));
            }
            i = i + 1;
        }
        proof {
            assert(self@.skip(i as int).len() == 0);
        }
        false
    }
}

} // verus!
