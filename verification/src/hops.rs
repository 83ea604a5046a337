//! Hops and the first-link-in-path search.
//!
//! A hop is one step of resolution: either the first symbolic link found
//! along a path (with its source prefix, literal target and untouched
//! suffix), or the terminal report that the path holds no link. The search
//! walks the path's components left to right, probing each prefix, and
//! short-circuits at the first link.

use vstd::prelude::*;

use crate::fsmodel::{FsTable, FsEntryModel, Probe, ProbeModel, probe_spec};
use crate::paths::{
    NodePath, PathModel, join_path, num_components, parent_path, prefix_path, suffix_after,
};

verus! {

/// Model of one resolution step.
#[verifier::ext_equal]
pub enum HopModel {
    /// The first symbolic link found along the path.
    Symlink { source: PathModel, target: PathModel, suffix: PathModel },
    /// A path with no symbolic link among its components.
    NotLink(PathModel),
}

/// One step of resolution.
#[derive(Debug)]
pub enum SymlinkPath {
    /// The first symbolic link found along the path: `source` is the path up
    /// to and including the link, `target` its literal content as stored in
    /// the filesystem, and `suffix` the components after the link, in
    /// original order, not yet re-resolved.
    Symlink { source: NodePath, target: NodePath, suffix: NodePath },
    /// A path that is not a symbolic link, either because it exists as an
    /// ordinary node or because some component along the way did not exist.
    NotLink(NodePath),
}

impl View for SymlinkPath {
    type V = HopModel;

    open spec fn view(&self) -> HopModel {
        match self {
            SymlinkPath::Symlink { source, target, suffix } => HopModel::Symlink {
                source: source@,
                target: target@,
                suffix: suffix@,
            },
            SymlinkPath::NotLink(p) => HopModel::NotLink(p@),
        }
    }
}

/// The next candidate path a hop leads to: the link's parent directory
/// joined with its target, then with the suffix when one remains. A
/// terminal hop leads to its own path.
pub open spec fn resolve_model(h: HopModel) -> PathModel {
    match h {
        HopModel::NotLink(p) => p,
        HopModel::Symlink { source, target, suffix } => {
            let base = join_path(parent_path(source), target);
            if num_components(suffix) > 0 {
                join_path(base, suffix)
            } else {
                base
            }
        },
    }
}

impl SymlinkPath {
    /// Compute the next candidate path this hop leads to.
    pub fn resolve(&self) -> (r: NodePath)
        requires
            (self@ matches HopModel::Symlink { source, .. } ==> source.parts.len() > 0),
        ensures
            r@ == resolve_model(self@),
    {
        match self {
            SymlinkPath::NotLink(p) => p.dup(),
            SymlinkPath::Symlink { source, target, suffix } => {
                let dir = source.parent();
                let base = dir.join(target);
                if suffix.absolute || suffix.parts.len() > 0 {
                    base.join(suffix)
                } else {
                    base
                }
            },
        }
    }
}

/// Model of what one search for the first link reports.
#[verifier::ext_equal]
pub enum FindModel {
    /// The search ran to a decision: a link hop or a terminal hop.
    Found(HopModel),
    /// Some probed prefix does not exist; nothing further to resolve.
    Missing,
    /// A probe failed for a reason other than absence; fatal.
    Fatal,
}

/// What one search for the first link reports.
#[derive(Debug)]
pub enum FindOutcome {
    Found(SymlinkPath),
    Missing,
    Fatal,
}

impl View for FindOutcome {
    type V = FindModel;

    open spec fn view(&self) -> FindModel {
        match self {
            FindOutcome::Found(h) => FindModel::Found(h@),
            FindOutcome::Missing => FindModel::Missing,
            FindOutcome::Fatal => FindModel::Fatal,
        }
    }
}

/// What the search reports on `p` once the prefixes of its first `taken`
/// components have already probed as non-links.
pub open spec fn find_from(
    fsv: Seq<(PathModel, FsEntryModel)>,
    p: PathModel,
    taken: int,
) -> FindModel
    decreases num_components(p) - taken,
{
    if taken >= num_components(p) {
        FindModel::Found(HopModel::NotLink(p))
    } else {
        match probe_spec(fsv, prefix_path(p, taken + 1)) {
            ProbeModel::Missing => FindModel::Missing,
            ProbeModel::Denied => FindModel::Fatal,
            ProbeModel::Link(t) => FindModel::Found(HopModel::Symlink {
                source: prefix_path(p, taken + 1),
                target: t,
                suffix: suffix_after(p, taken + 1),
            }),
            ProbeModel::NotLink => find_from(fsv, p, taken + 1),
        }
    }
}

/// What the search for the first link in `p` reports against `fsv`.
pub open spec fn find_spec(fsv: Seq<(PathModel, FsEntryModel)>, p: PathModel) -> FindModel {
    find_from(fsv, p, 0)
}

/// Model of the search state: the path and how many of its components have
/// probed as non-links so far.
pub struct SearchModel {
    pub path: PathModel,
    pub taken: int,
}

/// The search for the first link in one path, fed one probe answer at a
/// time. `pending` names the prefix to probe next; `step` consumes the
/// answer for it. The caller supplies the answers, from an `FsTable` or
/// from the real filesystem.
pub struct HopSearch {
    path: NodePath,
    root_taken: bool,
    parts_taken: usize,
}

impl View for HopSearch {
    type V = SearchModel;

    closed spec fn view(&self) -> SearchModel {
        SearchModel {
            path: self.path@,
            taken: self.parts_taken + (if self.root_taken {
                1int
            } else {
                0int
            }),
        }
    }
}

impl HopSearch {
    /// Internal consistency: the root of an absolute path is probed before
    /// any listed component; a relative path has no root to probe.
    pub closed spec fn wf(&self) -> bool {
        &&& self.parts_taken <= self.path@.parts.len()
        &&& if self.path.absolute {
            self.parts_taken > 0 ==> self.root_taken
        } else {
            !self.root_taken
        }
    }

    /// Begin a search over `path`.
    pub fn start(path: NodePath) -> (r: HopSearch)
        ensures
            r.wf(),
            r@.path == path@,
            r@.taken == 0,
    {
        HopSearch { path, root_taken: false, parts_taken: 0 }
    }

    /// The prefix to probe next, or nothing once every component has been
    /// probed (the whole path then holds no link).
    pub fn pending(&self) -> (r: Option<NodePath>)
        requires
            self.wf(),
        ensures
            (r is Some) == (self@.taken < num_components(self@.path)),
            (r matches Some(q) ==> q@ == prefix_path(self@.path, self@.taken + 1)),
    {
        if self.path.absolute && !self.root_taken {
            let q = NodePath::empty(true);
            proof {
                assert(self@.path.parts.subrange(0, 0) =~= Seq::<Seq<char>>::empty());
                assert(q@ =~= prefix_path(self@.path, self@.taken + 1));
            }
            Some(q)
        } else if self.parts_taken < self.path.parts.len() {
            let q = self.path.take_parts(self.parts_taken + 1);
            proof {
                assert(q@ =~= prefix_path(self@.path, self@.taken + 1));
            }
            Some(q)
        } else {
            None
        }
    }

    /// Consume the probe answer for the pending prefix. Reports the search's
    /// outcome, or nothing while more prefixes remain to probe.
    pub fn step(&mut self, probe: Probe) -> (r: Option<FindOutcome>)
        requires
            old(self).wf(),
            old(self)@.taken < num_components(old(self)@.path),
        ensures
            final(self).wf(),
            final(self)@.path == old(self)@.path,
            (probe@ == ProbeModel::Missing ==> {
                &&& r matches Some(o)
                &&& o@ == FindModel::Missing
            }),
            (probe@ == ProbeModel::Denied ==> {
                &&& r matches Some(o)
                &&& o@ == FindModel::Fatal
            }),
            (probe@ matches ProbeModel::Link(t) ==> {
                &&& r matches Some(o)
                &&& o@ == FindModel::Found(HopModel::Symlink {
                    source: prefix_path(old(self)@.path, old(self)@.taken + 1),
                    target: t,
                    suffix: suffix_after(old(self)@.path, old(self)@.taken + 1),
                })
            }),
            (probe@ == ProbeModel::NotLink ==> {
                &&& final(self)@.taken == old(self)@.taken + 1
                &&& if final(self)@.taken == num_components(final(self)@.path) {
                    &&& r matches Some(o)
                    &&& o@ == FindModel::Found(HopModel::NotLink(old(self)@.path))
                } else {
                    r is None
                }
            }),
    {
        match probe {
            Probe::Missing => Some(FindOutcome::Missing),
            Probe::Denied => Some(FindOutcome::Fatal),
            Probe::Link(target) => {
                let source = if self.path.absolute && !self.root_taken {
                    let q = NodePath::empty(true);
                    proof {
                        assert(self@.path.parts.subrange(0, 0) =~= Seq::<Seq<char>>::empty());
                        assert(q@ =~= prefix_path(self@.path, self@.taken + 1));
                    }
                    q
                } else {
                    let n = self.path.parts.len();
                    proof {
                        assert(self.parts_taken < n);
                    }
                    let q = self.path.take_parts(self.parts_taken + 1);
                    proof {
                        assert(q@ =~= prefix_path(self@.path, self@.taken + 1));
                    }
                    q
                };
                let suffix = if self.path.absolute && !self.root_taken {
                    let q = self.path.parts_from(0);
                    proof {
                        assert(q@ =~= suffix_after(self@.path, self@.taken + 1));
                    }
                    q
                } else {
                    let q = self.path.parts_from(self.parts_taken + 1);
                    proof {
                        assert(q@ =~= suffix_after(self@.path, self@.taken + 1));
                    }
                    q
                };
                Some(FindOutcome::Found(SymlinkPath::Symlink { source, target, suffix }))
            },
            Probe::NotLink => {
                let n = self.path.parts.len();
                if self.path.absolute && !self.root_taken {
                    self.root_taken = true;
                } else {
                    proof {
                        assert(self.parts_taken < n);
                    }
                    self.parts_taken = self.parts_taken + 1;
                }
                if (self.path.absolute && !self.root_taken) || self.parts_taken < n {
                    None
                } else {
                    Some(FindOutcome::Found(SymlinkPath::NotLink(self.path.dup())))
                }
            },
        }
    }
}

/// Find the first symbolic link in `path` against the table `fs`: probe each
/// component prefix left to right and short-circuit at the first link.
pub fn find_symlink(fs: &FsTable, path: &NodePath) -> (r: FindOutcome)
    ensures
        r@ == find_spec(fs@, path@),
{
    let mut s = HopSearch::start(path.dup());
    loop
        invariant
            s.wf(),
            s@.path == path@,
            0 <= s@.taken <= num_components(path@),
            find_from(fs@, path@, s@.taken) == find_spec(fs@, path@),
        decreases num_components(path@) - s@.taken,
    {
        match s.pending() {
            None => {
                return FindOutcome::Found(SymlinkPath::NotLink(path.dup()));
            },
            Some(prefix) => {
                let pr = fs.probe(&prefix);
                let ghost taken_before: int = s@.taken;
                match s.step(pr) {
                    Some(out) => {
                        proof {
                            assert(find_from(fs@, path@, taken_before) == out@);
                        }
                        return out;
                    },
                    None => {},
                }
            },
        }
    }
}

} // verus!
