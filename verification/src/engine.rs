//! The resolution engine: a lazily-driven, non-restartable sequence of hops.
//!
//! The engine holds exactly one piece of mutable state, the path to probe
//! next, plus the flag that marks the sequence exhausted. Each request for
//! a hop runs one first-link search on the current path: a link hop keeps
//! the sequence active on the hop's resolved path, a terminal hop is
//! emitted once and ends the sequence, a missing prefix is absorbed into a
//! terminal hop, and any other probe failure ends the sequence as an error.

use vstd::prelude::*;

use crate::fsmodel::{FsEntryModel, FsTable, ProbeModel, fs_ok, probe_spec};
use crate::hops::{
    FindModel, FindOutcome, HopModel, SymlinkPath, find_from, find_spec, find_symlink,
    resolve_model,
};
use crate::paths::{NodePath, PathModel, num_components, prefix_path};

verus! {

/// A fatal failure: probing `path` failed for a reason other than absence.
#[derive(Debug)]
pub struct ResolveError {
    pub path: NodePath,
}

/// Model of the engine's state.
pub struct EngineModel {
    pub path: PathModel,
    pub done: bool,
}

/// The hop sequence over one starting path. Request hops one at a time with
/// `next_in` (against an `FsTable`) or `advance` (against search outcomes
/// obtained elsewhere, e.g. from the real filesystem).
pub struct ReadlinksIterator {
    path: NodePath,
    done: bool,
}

impl View for ReadlinksIterator {
    type V = EngineModel;

    closed spec fn view(&self) -> EngineModel {
        EngineModel { path: self.path@, done: self.done }
    }
}

/// List all the intermediate symlinks in the resolution of `path`: a fresh,
/// not-yet-exhausted hop sequence starting there.
pub fn resolve(path: NodePath) -> (r: ReadlinksIterator)
    ensures
        r@.path == path@,
        !r@.done,
{
    ReadlinksIterator { path, done: false }
}

/// In a sane filesystem the first link found never sits at the bare root,
/// so its source keeps at least one listed component.
pub proof fn lemma_find_source_nonempty(
    fsv: Seq<(PathModel, FsEntryModel)>,
    p: PathModel,
    taken: int,
)
    requires
        fs_ok(fsv),
        0 <= taken,
    ensures
        (find_from(fsv, p, taken) matches FindModel::Found(h) ==> (h matches HopModel::Symlink {
            source,
            ..
        } ==> source.parts.len() > 0)),
    decreases num_components(p) - taken,
{
    if taken >= num_components(p) {
    } else {
        match probe_spec(fsv, prefix_path(p, taken + 1)) {
            ProbeModel::Link(t) => {
                let source = prefix_path(p, taken + 1);
                if source.parts.len() == 0 {
                    assert(p.absolute && taken == 0);
                    assert(prefix_path(p, 1) =~= (PathModel {
                        absolute: true,
                        parts: Seq::<Seq<char>>::empty(),
                    }));
                }
            },
            ProbeModel::NotLink => {
                lemma_find_source_nonempty(fsv, p, taken + 1);
            },
            _ => {},
        }
    }
}

impl ReadlinksIterator {
    /// Whether the sequence is exhausted.
    pub fn is_done(&self) -> (r: bool)
        ensures
            r == self@.done,
    {
        self.done
    }

    /// The path the next search would probe.
    pub fn current_path(&self) -> (r: &NodePath)
        ensures
            r@ == self@.path,
    {
        &self.path
    }

    /// Feed the engine the outcome of one first-link search on its current
    /// path and emit the resulting hop, if any.
    ///
    /// A link hop keeps the sequence active on the hop's resolved path. A
    /// terminal hop, or a missing prefix (absorbed into a terminal hop for
    /// the current path), is emitted once and exhausts the sequence. A
    /// fatal probe failure exhausts the sequence and surfaces the path that
    /// was being probed.
    pub fn advance(&mut self, outcome: FindOutcome) -> (r: Result<
        Option<SymlinkPath>,
        ResolveError,
    >)
        requires
            !old(self)@.done,
            (outcome@ matches FindModel::Found(h) ==> (h matches HopModel::Symlink {
                source,
                ..
            } ==> source.parts.len() > 0)),
        ensures
            final(self)@.path == (match outcome@ {
                FindModel::Found(h) => resolve_model(h),
                _ => old(self)@.path,
            }),
            final(self)@.done == !(outcome@ matches FindModel::Found(HopModel::Symlink { .. })),
            (match outcome@ {
                FindModel::Found(h) => {
                    &&& r matches Ok(s)
                    &&& s matches Some(hop)
                    &&& hop@ == h
                },
                FindModel::Missing => {
                    &&& r matches Ok(s)
                    &&& s matches Some(hop)
                    &&& hop@ == HopModel::NotLink(old(self)@.path)
                },
                FindModel::Fatal => {
                    &&& r matches Err(e)
                    &&& e.path@ == old(self)@.path
                },
            }),
    {
        match outcome {
            FindOutcome::Found(hop) => {
                let next = hop.resolve();
                if matches!(hop, SymlinkPath::NotLink(_)) {
                    self.done = true;
                }
                self.path = next;
                Ok(Some(hop))
            },
            FindOutcome::Missing => {
                self.done = true;
                Ok(Some(SymlinkPath::NotLink(self.path.dup())))
            },
            FindOutcome::Fatal => {
                self.done = true;
                Err(ResolveError { path: self.path.dup() })
            },
        }
    }

    /// Request the next hop against the filesystem table `fs`.
    ///
    /// An exhausted sequence yields nothing, ever; otherwise one first-link
    /// search runs on the current path and its outcome drives the sequence
    /// exactly as in `advance`.
    pub fn next_in(&mut self, fs: &FsTable) -> (r: Result<Option<SymlinkPath>, ResolveError>)
        requires
            fs_ok(fs@),
        ensures
            (old(self)@.done ==> {
                &&& r matches Ok(s)
                &&& s is None
                &&& final(self)@ == old(self)@
            }),
            (!old(self)@.done ==> {
                &&& final(self)@.path == (match find_spec(fs@, old(self)@.path) {
                    FindModel::Found(h) => resolve_model(h),
                    _ => old(self)@.path,
                })
                &&& final(self)@.done == !(find_spec(fs@, old(self)@.path) matches
                    FindModel::Found(HopModel::Symlink { .. }))
                &&& (match find_spec(fs@, old(self)@.path) {
                    FindModel::Found(h) => {
                        &&& r matches Ok(s)
                        &&& s matches Some(hop)
                        &&& hop@ == h
                    },
                    FindModel::Missing => {
                        &&& r matches Ok(s)
                        &&& s matches Some(hop)
                        &&& hop@ == HopModel::NotLink(old(self)@.path)
                    },
                    FindModel::Fatal => {
                        &&& r matches Err(e)
                        &&& e.path@ == old(self)@.path
                    },
                })
            }),
    {
        if self.done {
            return Ok(None);
        }
        let outcome = find_symlink(fs, &self.path);
        proof {
            lemma_find_source_nonempty(fs@, self.path@, 0);
        }
        self.advance(outcome)
    }
}

} // verus!
