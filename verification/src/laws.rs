//! Laws of the resolution engine and of the path expander.
//!
//! These proof functions state, over the same models the contracts use,
//! what a consumer of the hop sequence may rely on: a link-free path ends
//! in exactly one terminal hop, the first link found determines the hop's
//! source, target and suffix exactly, and the expander passes anything it
//! cannot expand through unchanged.

use vstd::prelude::*;

use crate::fsmodel::{FsEntryModel, ProbeModel, probe_spec};
use crate::expand::{expand_spec, first_match};
use crate::hops::{FindModel, HopModel, find_from, find_spec, resolve_model};
use crate::paths::{
    PathModel, join_path, num_components, parent_path, prefix_path, root_count, suffix_after,
};

verus! {

/// Helper: once `taken` components have probed as non-links and every later
/// prefix also probes as a non-link, the search ends in the terminal hop.
proof fn lemma_terminal_from(fsv: Seq<(PathModel, FsEntryModel)>, p: PathModel, taken: int)
    requires
        0 <= taken,
        forall|k: int|
            taken < k <= num_components(p) ==> (#[trigger] probe_spec(fsv, prefix_path(p, k)))
                is NotLink,
    ensures
        find_from(fsv, p, taken) == FindModel::Found(HopModel::NotLink(p)),
    decreases num_components(p) - taken,
{
    if taken >= num_components(p) {
    } else {
        assert(probe_spec(fsv, prefix_path(p, taken + 1)) is NotLink);
        lemma_terminal_from(fsv, p, taken + 1);
    }
}

/// Termination on non-links: when no prefix of the path probes as a link —
/// every component exists and none is a symbolic link — the search yields
/// exactly the terminal hop for the path itself, which exhausts the
/// sequence.
pub proof fn lemma_terminal_when_no_links(fsv: Seq<(PathModel, FsEntryModel)>, p: PathModel)
    requires
        forall|k: int|
            0 < k <= num_components(p) ==> (#[trigger] probe_spec(fsv, prefix_path(p, k)))
                is NotLink,
    ensures
        find_spec(fsv, p) == FindModel::Found(HopModel::NotLink(p)),
{
    lemma_terminal_from(fsv, p, 0);
}

/// Helper for `lemma_first_link`, inducting up to the link's component.
proof fn lemma_first_link_from(
    fsv: Seq<(PathModel, FsEntryModel)>,
    p: PathModel,
    k: int,
    t: PathModel,
    taken: int,
)
    requires
        0 <= taken < k <= num_components(p),
        forall|j: int|
            taken < j < k ==> (#[trigger] probe_spec(fsv, prefix_path(p, j))) is NotLink,
        probe_spec(fsv, prefix_path(p, k)) == ProbeModel::Link(t),
    ensures
        find_from(fsv, p, taken) == FindModel::Found(HopModel::Symlink {
            source: prefix_path(p, k),
            target: t,
            suffix: suffix_after(p, k),
        }),
    decreases k - taken,
{
    if taken + 1 == k {
    } else {
        assert(probe_spec(fsv, prefix_path(p, taken + 1)) is NotLink);
        lemma_first_link_from(fsv, p, k, t, taken + 1);
    }
}

/// The first link determines the hop exactly: when the prefixes short of
/// component `k` probe as non-links and the prefix of `k` components is a
/// link to `t`, the search yields the link hop whose source is that very
/// prefix, whose target is `t` literally, and whose suffix is the
/// components after `k`, in original order.
pub proof fn lemma_first_link(
    fsv: Seq<(PathModel, FsEntryModel)>,
    p: PathModel,
    k: int,
    t: PathModel,
)
    requires
        1 <= k <= num_components(p),
        forall|j: int| 0 < j < k ==> (#[trigger] probe_spec(fsv, prefix_path(p, j))) is NotLink,
        probe_spec(fsv, prefix_path(p, k)) == ProbeModel::Link(t),
    ensures
        find_spec(fsv, p) == FindModel::Found(HopModel::Symlink {
            source: prefix_path(p, k),
            target: t,
            suffix: suffix_after(p, k),
        }),
{
    lemma_first_link_from(fsv, p, k, t, 0);
}

/// Single-hop correctness: a path that is itself a symlink to `t` (no
/// earlier component being one) yields one link hop whose source is the
/// whole path, whose target is `t`, whose suffix is empty, and whose
/// resolved path joins `t` onto the link's parent directory — `t` itself
/// whenever `t` is absolute.
pub proof fn lemma_single_hop(fsv: Seq<(PathModel, FsEntryModel)>, l: PathModel, t: PathModel)
    requires
        num_components(l) >= 1,
        forall|j: int|
            0 < j < num_components(l) ==> (#[trigger] probe_spec(fsv, prefix_path(l, j)))
                is NotLink,
        probe_spec(fsv, l) == ProbeModel::Link(t),
    ensures
        find_spec(fsv, l) == FindModel::Found(HopModel::Symlink {
            source: l,
            target: t,
            suffix: (PathModel { absolute: false, parts: Seq::<Seq<char>>::empty() }),
        }),
        resolve_model(HopModel::Symlink {
            source: l,
            target: t,
            suffix: (PathModel { absolute: false, parts: Seq::<Seq<char>>::empty() }),
        }) == join_path(parent_path(l), t),
        t.absolute ==> resolve_model(HopModel::Symlink {
            source: l,
            target: t,
            suffix: (PathModel { absolute: false, parts: Seq::<Seq<char>>::empty() }),
        }) == t,
{
    let k = num_components(l);
    assert(prefix_path(l, k) =~= l);
    lemma_first_link(fsv, l, k, t);
    assert(suffix_after(l, k) =~= (PathModel {
        absolute: false,
        parts: Seq::<Seq<char>>::empty(),
    }));
}

/// Suffix preservation: when the link sits strictly inside the path, the
/// hop keeps the remaining components untouched and in order, and — for an
/// absolute target `d` — resolves to `d` followed by exactly those
/// components.
pub proof fn lemma_suffix_preserved(
    fsv: Seq<(PathModel, FsEntryModel)>,
    p: PathModel,
    k: int,
    d: PathModel,
)
    requires
        1 <= k < num_components(p),
        forall|j: int| 0 < j < k ==> (#[trigger] probe_spec(fsv, prefix_path(p, j))) is NotLink,
        probe_spec(fsv, prefix_path(p, k)) == ProbeModel::Link(d),
        d.absolute,
    ensures
        find_spec(fsv, p) == FindModel::Found(HopModel::Symlink {
            source: prefix_path(p, k),
            target: d,
            suffix: suffix_after(p, k),
        }),
        suffix_after(p, k).parts == p.parts.subrange(k - root_count(p), p.parts.len() as int),
        resolve_model(HopModel::Symlink {
            source: prefix_path(p, k),
            target: d,
            suffix: suffix_after(p, k),
        }) == (PathModel {
            absolute: true,
            parts: d.parts + p.parts.subrange(k - root_count(p), p.parts.len() as int),
        }),
{
    lemma_first_link(fsv, p, k, d);
    let suffix = suffix_after(p, k);
    assert(num_components(suffix) > 0);
    assert(join_path(parent_path(prefix_path(p, k)), d) == d);
    assert(join_path(d, suffix) =~= (PathModel {
        absolute: true,
        parts: d.parts + p.parts.subrange(k - root_count(p), p.parts.len() as int),
    }));
}

/// Helper: when the candidate exists as a file in no search directory,
/// there is no match at any start index.
proof fn lemma_first_match_none(
    fsv: Seq<(PathModel, FsEntryModel)>,
    dirs: Seq<PathModel>,
    cand: PathModel,
    i: int,
)
    requires
        forall|j: int|
            0 <= j < dirs.len() ==> !crate::fsmodel::is_file_at(
                fsv,
                #[trigger] join_path(dirs[j], cand),
            ),
    ensures
        first_match(fsv, dirs, cand, i) is None,
    decreases dirs.len() - i,
{
    if i < 0 || i >= dirs.len() {
    } else {
        lemma_first_match_none(fsv, dirs, cand, i + 1);
    }
}

/// Expander passthrough: a candidate of more than one component — or of
/// none — is returned unchanged whatever the search path holds, and so is
/// a one-component candidate that exists as a file in no search directory.
pub proof fn lemma_expand_passthrough(
    fsv: Seq<(PathModel, FsEntryModel)>,
    dirs: Seq<PathModel>,
    cand: PathModel,
)
    ensures
        num_components(cand) != 1 ==> expand_spec(fsv, dirs, cand) == cand,
        (forall|j: int|
            0 <= j < dirs.len() ==> !crate::fsmodel::is_file_at(
                fsv,
                #[trigger] join_path(dirs[j], cand),
            )) ==> expand_spec(fsv, dirs, cand) == cand,
{
    if forall|j: int|
        0 <= j < dirs.len() ==> !crate::fsmodel::is_file_at(
            fsv,
            #[trigger] join_path(dirs[j], cand),
        ) {
        lemma_first_match_none(fsv, dirs, cand, 0);
    }
}

} // verus!
