//! The mutating verbs the command layer calls, composed from the store, the
//! verifier and the integration engine.  The caller serializes these per
//! project and persists the document afterwards.

use vstd::prelude::*;
use crate::ids::{BranchId, Oid};
use crate::errors::Error;
use crate::branch::{BranchCreateRequest, BranchSnap, hidden_ref_name};
use crate::ownership::{LineRange, subtract_claim};
use crate::store::{
    VirtualBranches, applied_snap, branches_view, created_branch_snap, has_branch, idx_of,
    listed_order,
};
use crate::repo::Repo;
use crate::integration::{applied_of, get_workspace_head, lemma_hidden_ref_plain, ws_fold};

verus! {

broadcast use vstd::std_specs::control_flow::spec_from_blanket_identity;

/// Creates a virtual branch from the request: its head is the target commit
/// and its tree the target's tree, and it is not yet applied.
pub fn create_virtual_branch(
    repo: &Repo,
    doc: &mut VirtualBranches,
    req: BranchCreateRequest,
    id: BranchId,
    now: u64,
) -> (r: Result<(), Error>)
    requires
        old(doc).wf(),
        !has_branch(old(doc)@.branches, id),
        (req.ownership matches Some(o) ==> o.wf()),
    ensures
        final(doc).wf(),
        final(doc)@.default_target == old(doc)@.default_target,
        r matches Err(e) ==> (e is TargetMissing || e is GitBackend) && final(doc)@ == old(doc)@,
        (r matches Err(e) && e is TargetMissing) <==> old(doc)@.default_target is None,
        r is Ok ==> ({
            let t = old(doc)@.default_target->0;
            &&& repo@.commits.contains_key(t.sha)
            &&& final(doc)@.branches == old(doc)@.branches.push(created_branch_snap(req, id,
                t.sha, repo@.commits[t.sha].tree, now, old(doc)@.branches.len() as int))
        }),
{
    let tsha = match doc.get_default_target() {
        Ok(t) => t.sha,
        Err(e) => {
            return Err(e);
        },
    };
    let tinfo = repo.find_commit(tsha)?;
    doc.create_virtual_branch(req, id, tinfo.tree, now)
}

/// Applies a branch: its head tree then contributes to the workspace.
/// Success means the whole applied set, in listing order, still merges
/// cleanly onto the target; otherwise nothing is persisted and the first
/// conflicting branch is reported.
pub fn apply_branch(repo: &mut Repo, doc: &mut VirtualBranches, id: BranchId, now: u64) -> (r:
    Result<(), Error>)
    requires
        old(doc).wf(),
    ensures
        final(doc).wf(),
        old(repo)@.commits.submap_of(final(repo)@.commits),
        final(repo)@.merge_config == old(repo)@.merge_config,
        final(repo)@.refs == old(repo)@.refs,
        final(repo)@.head == old(repo)@.head,
        final(repo)@.index_tree == old(repo)@.index_tree,
        final(doc)@.default_target == old(doc)@.default_target,
        r matches Err(e) ==> (e is TargetMissing || e is BranchNotFound || e is GitBackend
            || e is WorkspaceMergeConflict) && final(doc)@ == old(doc)@,
        r matches Err(e) ==> (e is TargetMissing <==> old(doc)@.default_target is None),
        old(doc)@.default_target is None ==> r is Err,
        r matches Err(e) ==> (e is BranchNotFound <==> (old(doc)@.default_target is Some
            && !has_branch(old(doc)@.branches, id))),
        old(doc)@.default_target is Some && !has_branch(old(doc)@.branches, id) ==> r is Err,
        r is Ok ==> final(doc)@.branches == old(doc)@.branches.update(idx_of(old(doc)@.branches,
            id), applied_snap(old(doc)@.branches[idx_of(old(doc)@.branches, id)], true,
            now as int)),
        r is Ok ==> ({
            let t = old(doc)@.default_target->0;
            &&& old(repo)@.commits.contains_key(t.sha)
            &&& exists|bs: Seq<BranchSnap>| #[trigger] listed_order(bs, final(doc)@.branches)
                && ws_fold(old(repo)@.merge_config, old(repo)@.commits,
                old(repo)@.commits[t.sha].tree, old(repo)@.commits[t.sha].tree, applied_of(
                bs)) is Ok
        }),
        r matches Err(e) ==> (e matches Error::WorkspaceMergeConflict { branch } ==> ({
            let t = old(doc)@.default_target->0;
            let tried = old(doc)@.branches.update(idx_of(old(doc)@.branches, id), applied_snap(
                old(doc)@.branches[idx_of(old(doc)@.branches, id)], true, now as int));
            &&& old(repo)@.commits.contains_key(t.sha)
            &&& exists|bs: Seq<BranchSnap>| #[trigger] listed_order(bs, tried) && ws_fold(
                old(repo)@.merge_config, old(repo)@.commits, old(repo)@.commits[t.sha].tree,
                old(repo)@.commits[t.sha].tree, applied_of(bs)) == Err::<Oid, BranchId>(branch)
        })),
{
    let target = match doc.get_default_target() {
        Ok(t) => t.duplicate(),
        Err(e) => {
            return Err(e);
        },
    };
    let idx = match doc.find_branch(id) {
        Some(i) => i,
        None => {
            return Err(Error::BranchNotFound { id });
        },
    };
    proof {
        assert(has_branch(old(doc)@.branches, id));
        assert(idx_of(old(doc)@.branches, id) == idx as int) by {
            let j = idx_of(old(doc)@.branches, id);
            assert(0 <= j < old(doc)@.branches.len() && old(doc)@.branches[j].id == id);
        }
    }
    let orig = doc.branches[idx].duplicate();
    match doc.set_applied(id, true, now) {
        Ok(()) => {},
        Err(e) => {
            return Err(e);
        },
    }
    let listed = doc.list_branches();
    proof {
        assert(listed_order(branches_view(listed@), doc@.branches));
    }
    match get_workspace_head(repo, &target, &listed) {
        Ok(_) => Ok(()),
        Err(e) => {
            // Roll the document back: the conflicting state is not persisted.
            doc.set_branch(orig);
            proof {
                assert(idx_of(doc@.branches, id) == idx as int) by {
                    let j = idx_of(doc@.branches, id);
                    assert(doc@.branches[idx as int].id == id);
                    assert(0 <= j < doc@.branches.len() && doc@.branches[j].id == id);
                }
                assert(final(doc)@.branches =~= old(doc)@.branches);
            }
            Err(e)
        },
    }
}

/// Unapplies a branch: its content no longer contributes to the workspace.
pub fn unapply_branch(doc: &mut VirtualBranches, id: BranchId, now: u64) -> (r: Result<(), Error>)
    requires
        old(doc).wf(),
    ensures
        final(doc).wf(),
        final(doc)@.default_target == old(doc)@.default_target,
        r is Ok <==> has_branch(old(doc)@.branches, id),
        r matches Err(e) ==> e is BranchNotFound && final(doc)@ == old(doc)@,
        r is Ok ==> final(doc)@.branches == old(doc)@.branches.update(idx_of(old(doc)@.branches,
            id), applied_snap(old(doc)@.branches[idx_of(old(doc)@.branches, id)], false,
            now as int)),
{
    doc.set_applied(id, false, now)
}

/// Deletes an unapplied virtual branch and removes its hidden ref, so no
/// trace of the branch remains under the hidden prefix.
pub fn delete_virtual_branch(repo: &mut Repo, doc: &mut VirtualBranches, id: BranchId) -> (r:
    Result<(), Error>)
    requires
        old(doc).wf(),
    ensures
        final(doc).wf(),
        final(doc)@.default_target == old(doc)@.default_target,
        final(repo)@.commits == old(repo)@.commits,
        final(repo)@.head == old(repo)@.head,
        final(repo)@.index_tree == old(repo)@.index_tree,
        final(repo)@.merge_config == old(repo)@.merge_config,
        r matches Err(e) ==> (e is BranchNotFound || e is BranchStillApplied
            || e is GitBackend),
        r matches Err(e) ==> (e is BranchNotFound <==> !has_branch(old(doc)@.branches, id)),
        !has_branch(old(doc)@.branches, id) ==> r is Err,
        r matches Err(e) ==> (e is BranchStillApplied <==> (has_branch(old(doc)@.branches, id)
            && old(doc)@.branches[idx_of(old(doc)@.branches, id)].applied)),
        has_branch(old(doc)@.branches, id) && old(doc)@.branches[idx_of(old(doc)@.branches,
            id)].applied ==> r is Err,
        r matches Err(e) ==> ((e is BranchNotFound || e is BranchStillApplied) ==> (final(doc)@
            == old(doc)@ && final(repo)@ == old(repo)@)),
        r matches Err(e) ==> (e is GitBackend ==> (final(repo)@.refs == old(repo)@.refs
            && final(doc)@.branches == old(doc)@.branches.remove(idx_of(old(doc)@.branches,
            id)))),
        r is Ok ==> ({
            let i = idx_of(old(doc)@.branches, id);
            &&& final(doc)@.branches == old(doc)@.branches.remove(i)
            &&& final(repo)@.refs == old(repo)@.refs.remove(hidden_ref_name(
                old(doc)@.branches[i].name))
        }),
{
    let idx = match doc.find_branch(id) {
        Some(i) => i,
        None => {
            return Err(Error::BranchNotFound { id });
        },
    };
    proof {
        assert(has_branch(old(doc)@.branches, id));
        assert(idx_of(old(doc)@.branches, id) == idx as int) by {
            let j = idx_of(old(doc)@.branches, id);
            assert(0 <= j < old(doc)@.branches.len() && old(doc)@.branches[j].id == id);
        }
    }
    let hr = doc.branches[idx].refname();
    proof {
        lemma_hidden_ref_plain(old(doc)@.branches[idx as int].name);
    }
    match doc.delete_virtual_branch(id) {
        Ok(()) => {},
        Err(e) => {
            return Err(e);
        },
    }
    match repo.delete_reference(hr.as_str()) {
        Ok(()) => Ok(()),
        Err(e) => Err(e),
    }
}

/// Takes the claim on `(path, sub)` away from every applied branch:
/// afterwards no applied branch owns any of those lines, every other claimed
/// line stays where it was, and unapplied branches are untouched.  Claims
/// only shrink, so disjointness of applied claims is preserved.
#[verifier::loop_isolation(false)]
pub fn unapply_ownership(doc: &mut VirtualBranches, path: &String, sub: LineRange, now: u64)
    requires
        old(doc).wf(),
        sub.wf(),
    ensures
        final(doc).wf(),
        final(doc)@.default_target == old(doc)@.default_target,
        final(doc)@.branches.len() == old(doc)@.branches.len(),
        forall|k: int| 0 <= k < old(doc)@.branches.len() && !old(doc)@.branches[k].applied
            ==> final(doc)@.branches[k] == old(doc)@.branches[k],
        forall|k: int| 0 <= k < old(doc)@.branches.len() && old(doc)@.branches[k].applied
            ==> final(doc)@.branches[k] == (BranchSnap {
            ownership: final(doc)@.branches[k].ownership,
            updated_ts: now as int,
            ..old(doc)@.branches[k]
        }),
        forall|k: int, p: Seq<char>, l: int| #![all_triggers]
            0 <= k < old(doc)@.branches.len() && old(doc)@.branches[k].applied ==> (final(
            doc).branches@[k].ownership.owns(p, l) <==> (old(doc).branches@[k].ownership.owns(p,
            l) && !(p == path@ && sub.covers(l)))),
{
    let ghost d0 = doc@;
    let mut k: usize = 0;
    while k < doc.branches.len()
        invariant
            0 <= k <= doc.branches@.len(),
            doc.branches@.len() == old(doc).branches@.len(),
            forall|j: int| k <= j < doc.branches@.len() ==> doc.branches@[j]
                == old(doc).branches@[j],
            forall|j: int| 0 <= j < k && !old(doc)@.branches[j].applied ==> doc@.branches[j]
                == old(doc)@.branches[j],
            forall|j: int| 0 <= j < k && old(doc)@.branches[j].applied ==> doc@.branches[j]
                == (BranchSnap {
                ownership: doc@.branches[j].ownership,
                updated_ts: now as int,
                ..old(doc)@.branches[j]
            }),
            forall|j: int, p: Seq<char>, l: int| #![all_triggers]
                0 <= j < k && old(doc)@.branches[j].applied ==> (doc.branches@[j].ownership.owns(
                p, l) <==> (old(doc).branches@[j].ownership.owns(p, l) && !(p == path@
                && sub.covers(l)))),
            forall|j: int| 0 <= j < doc.branches@.len() ==> (#[trigger] doc.branches@[j]).wf(),
            forall|j: int| 0 <= j < doc.branches@.len() ==> (#[trigger] doc.branches@[j]).id
                == old(doc).branches@[j].id,
            doc.default_target == old(doc).default_target,
        decreases doc.branches@.len() - k,
    {
        let ghost prev = doc.branches@;
        if doc.branches[k].applied {
            let newown = subtract_claim(&doc.branches[k].ownership, path, sub);
            let b = &mut doc.branches[k];
            b.ownership = newown;
            b.updated_ts = now;
            proof {
                assert(doc.branches@[k as int].id == old(doc).branches@[k as int].id);
                assert(doc@.branches[k as int] =~= (BranchSnap {
                    ownership: doc@.branches[k as int].ownership,
                    updated_ts: now as int,
                    ..old(doc)@.branches[k as int]
                }));
            }
        }
        proof {
            assert forall|j: int| 0 <= j < doc.branches@.len() && j != k as int
                implies #[trigger] doc@.branches[j] == crate::store::branches_view(prev)[j] by {
                assert(doc.branches@[j] == prev[j]);
            }
        }
        k = k + 1;
    }
    proof {
        assert forall|i: int, j: int| 0 <= i < j < doc@.branches.len()
            implies (#[trigger] doc@.branches[i]).id != (#[trigger] doc@.branches[j]).id by {
            assert(old(doc)@.branches[i].id != old(doc)@.branches[j].id);
            assert(doc@.branches[i].id == doc.branches@[i].id);
            assert(doc@.branches[j].id == doc.branches@[j].id);
            assert(old(doc)@.branches[i].id == old(doc).branches@[i].id);
            assert(old(doc)@.branches[j].id == old(doc).branches@[j].id);
        }
    }
}

} // verus!
