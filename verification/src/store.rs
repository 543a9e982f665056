//! The virtual-branch document: the default target and the set of branches
//! persisted per project, with the pure verbs that transform it.
//!
//! Reading and writing the document file is the caller's job; everything here
//! is a total transformation of the in-memory value, so replaying the same
//! verbs on the same document always yields the same result.

use vstd::prelude::*;
use crate::ids::{BranchId, Oid};
use crate::errors::Error;
use crate::branch::{
    Branch, BranchSnap, BranchCreateRequest, BranchUpdateRequest, branch_le, branch_le_exec,
    clone_opt_string, duplicate_ownership, hidden_ref_name, lemma_branch_le_total,
    lemma_branch_le_transitive, ownership_view,
};
use crate::ownership::BranchOwnershipClaims;

verus! {

/// A handle on one project's virtual-branch store: the directory the
/// document lives in.  Reading and writing the file is the caller's job.
#[derive(Clone, Debug)]
pub struct VirtualBranchesHandle {
    pub gb_dir: String,
}

impl VirtualBranchesHandle {
    pub fn new(gb_dir: String) -> (r: VirtualBranchesHandle)
        ensures
            r.gb_dir@ == gb_dir@,
    {
        VirtualBranchesHandle { gb_dir }
    }
}

/// The upstream reference the user stacks work on.
#[derive(Debug)]
pub struct Target {
    /// The remote refname the target tracks.
    pub remote_ref: String,
    /// The commit the workspace is built upon.
    pub sha: Oid,
    /// An optional override of the remote used for pushing.
    pub push_remote: Option<String>,
}

#[verifier::ext_equal]
pub ghost struct TargetSnap {
    pub remote_ref: Seq<char>,
    pub sha: Oid,
    pub push_remote: Option<Seq<char>>,
}

impl View for Target {
    type V = TargetSnap;

    open spec fn view(&self) -> TargetSnap {
        TargetSnap {
            remote_ref: self.remote_ref@,
            sha: self.sha,
            push_remote: match self.push_remote {
                Some(p) => Some(p@),
                None => None,
            },
        }
    }
}

impl Target {
    /// An exact copy of the target.
    pub fn duplicate(&self) -> (r: Target)
        ensures
            r@ == self@,
    {
        Target {
            remote_ref: self.remote_ref.clone(),
            sha: self.sha,
            push_remote: clone_opt_string(&self.push_remote),
        }
    }
}

/// The spec-level snapshots of a branch list.
pub open spec fn branches_view(bs: Seq<Branch>) -> Seq<BranchSnap> {
    bs.map_values(|b: Branch| b@)
}

/// No two branches share an id.
pub open spec fn ids_distinct(bs: Seq<BranchSnap>) -> bool {
    forall|i: int, j: int| 0 <= i < j < bs.len() ==> (#[trigger] bs[i]).id != (#[trigger] bs[j]).id
}

/// No two branches share a name; the hidden refs then cannot collide.
pub open spec fn names_distinct(bs: Seq<BranchSnap>) -> bool {
    forall|i: int, j: int| 0 <= i < j < bs.len() ==> (#[trigger] bs[i]).name != (#[trigger] bs[j]).name
}

/// Whether some branch of `bs` has id `id`.
pub open spec fn has_branch(bs: Seq<BranchSnap>, id: BranchId) -> bool {
    exists|i: int| 0 <= i < bs.len() && (#[trigger] bs[i]).id == id
}

/// The position of the branch with id `id`; meaningful when ids are distinct
/// and the branch exists.
pub open spec fn idx_of(bs: Seq<BranchSnap>, id: BranchId) -> int {
    choose|i: int| 0 <= i < bs.len() && (#[trigger] bs[i]).id == id
}

/// `bs` is `of` in listing order: the same branches, ascending by `order`
/// with ties broken by `created_ts` and then by id.
pub open spec fn listed_order(bs: Seq<BranchSnap>, of: Seq<BranchSnap>) -> bool {
    &&& bs.to_multiset() == of.to_multiset()
    &&& (forall|i: int, j: int| 0 <= i < j < bs.len() ==> branch_le(#[trigger] bs[i],
        #[trigger] bs[j]))
}

/// The names of the hidden refs that integration maintains for `bs`.
pub open spec fn hidden_ref_names(bs: Seq<BranchSnap>) -> Set<Seq<char>> {
    Set::new(|n: Seq<char>| exists|i: int|
        0 <= i < bs.len() && n == hidden_ref_name((#[trigger] bs[i]).name))
}

/// The persisted virtual-branch document of one project.
#[derive(Debug)]
pub struct VirtualBranches {
    pub default_target: Option<Target>,
    pub branches: Vec<Branch>,
}

#[verifier::ext_equal]
pub ghost struct DocSnap {
    pub default_target: Option<TargetSnap>,
    pub branches: Seq<BranchSnap>,
}

impl View for VirtualBranches {
    type V = DocSnap;

    open spec fn view(&self) -> DocSnap {
        DocSnap {
            default_target: match self.default_target {
                Some(t) => Some(t@),
                None => None,
            },
            branches: branches_view(self.branches@),
        }
    }
}

impl VirtualBranches {
    /// The document is well formed when branch ids are distinct and each
    /// branch's ownership is well formed.
    pub open spec fn wf(self) -> bool {
        &&& ids_distinct(self@.branches)
        &&& forall|i: int|
            0 <= i < self.branches@.len() ==> (#[trigger] self.branches@[i]).wf()
    }

    /// A fresh document: no target, no branches.
    pub fn new() -> (r: VirtualBranches)
        ensures
            r@.default_target is None,
            r@.branches.len() == 0,
            r.wf(),
    {
        VirtualBranches { default_target: None, branches: Vec::new() }
    }

    /// The default target, or `TargetMissing` when none is set.
    pub fn get_default_target(&self) -> (r: Result<&Target, Error>)
        ensures
            r is Ok <==> self@.default_target is Some,
            r matches Ok(t) ==> Some(t@) == self@.default_target,
            r matches Err(e) ==> e == Error::TargetMissing,
    {
        match &self.default_target {
            Some(t) => Ok(t),
            None => Err(Error::TargetMissing),
        }
    }

    /// Sets the default target.
    pub fn set_default_target(&mut self, t: Target)
        ensures
            final(self)@.default_target == Some(t@),
            final(self)@.branches == old(self)@.branches,
            final(self).wf() == old(self).wf(),
    {
        self.default_target = Some(t);
        proof {
            assert(final(self)@.branches =~= old(self)@.branches);
        }
    }

    /// The position of the branch with the given id, if any.
    pub fn find_branch(&self, id: BranchId) -> (r: Option<usize>)
        ensures
            r matches Some(i) ==> 0 <= i < self@.branches.len() && self@.branches[i as int].id
                == id,
            r is None ==> !has_branch(self@.branches, id),
    {
        let mut i: usize = 0;
        while i < self.branches.len()
            invariant
                0 <= i <= self@.branches.len(),
                forall|k: int| 0 <= k < i ==> (#[trigger] self@.branches[k]).id != id,
            decreases self@.branches.len() - i,
        {
            if self.branches[i].id.hi == id.hi && self.branches[i].id.lo == id.lo {
                return Some(i);
            }
            i = i + 1;
        }
        None
    }

    /// Creates a branch from the request, filling unset fields with the model
    /// defaults.  The new branch is not applied; `apply_branch` is a separate
    /// step.  Fails with `TargetMissing` when no target is set.
    ///
    /// `id` must be fresh; `head` and `tree` are the target commit and its
    /// tree, handed in by the caller that read them from the repository.
    pub fn create_virtual_branch(
        &mut self,
        req: BranchCreateRequest,
        id: BranchId,
        tree: Oid,
        now: u64,
    ) -> (r: Result<(), Error>)
        requires
            !has_branch(old(self)@.branches, id),
            (req.ownership matches Some(o) ==> o.wf()),
        ensures
            r is Ok <==> old(self)@.default_target is Some,
            r matches Err(e) ==> e == Error::TargetMissing && final(self)@ == old(self)@,
            r is Ok ==> final(self)@.branches == old(self)@.branches.push(
                created_branch_snap(req, id, old(self)@.default_target->0.sha, tree, now,
                    old(self)@.branches.len() as int),
            ),
            final(self)@.default_target == old(self)@.default_target,
            old(self).wf() ==> final(self).wf(),
    {
        let target_sha = match &self.default_target {
            Some(t) => t.sha,
            None => {
                proof {
                    assert(final(self)@ =~= old(self)@);
                }
                return Err(Error::TargetMissing);
            },
        };
        let name = match req.name {
            Some(n) => n,
            None => {
                let mut s = String::new();
                s.append("Virtual branch");
                s
            },
        };
        let ownership = match req.ownership {
            Some(o) => o,
            None => BranchOwnershipClaims::empty(),
        };
        let order = match req.order {
            Some(o) => o,
            None => self.branches.len(),
        };
        let b = Branch {
            id,
            name,
            notes: String::new(),
            applied: false,
            upstream: None,
            head: target_sha,
            tree,
            ownership,
            order,
            created_ts: now,
            updated_ts: now,
        };
        let ghost prev = self@.branches;
        self.branches.push(b);
        proof {
            assert(final(self)@.branches =~= prev.push(b@));
            assert(b@ =~~= created_branch_snap(req, id, old(self)@.default_target->0.sha, tree,
                now, prev.len() as int));
            if old(self).wf() {
                assert forall|i: int, j: int| 0 <= i < j < final(self)@.branches.len()
                    implies (#[trigger] final(self)@.branches[i]).id
                        != (#[trigger] final(self)@.branches[j]).id by {
                    if j == final(self)@.branches.len() - 1 {
                        if prev[i].id == id {
                            assert(has_branch(prev, id));
                        }
                    }
                }
                assert forall|i: int| 0 <= i < final(self).branches@.len()
                    implies (#[trigger] final(self).branches@[i]).wf() by {
                    if i < prev.len() {
                        assert(old(self).branches@[i].wf());
                    } else {
                        assert(final(self).branches@[i].ownership.wf());
                    }
                }
            }
        }
        Ok(())
    }

    /// Deletes the branch with the given id.  A branch that is still applied
    /// must be unapplied first.
    pub fn delete_virtual_branch(&mut self, id: BranchId) -> (r: Result<(), Error>)
        requires
            old(self).wf(),
        ensures
            final(self)@.default_target == old(self)@.default_target,
            r matches Err(e) ==> final(self)@ == old(self)@ && ((e == Error::BranchNotFound { id }) || e == Error::BranchStillApplied),
            (r matches Err(e) && e == (Error::BranchNotFound { id })) <==> !has_branch(
                old(self)@.branches, id),
            (r matches Err(e) && e == Error::BranchStillApplied) <==> (has_branch(
                old(self)@.branches, id) && old(self)@.branches[idx_of(old(self)@.branches,
                id)].applied),
            r is Ok ==> final(self)@.branches == old(self)@.branches.remove(idx_of(
                old(self)@.branches, id)),
            final(self).wf(),
    {
        let idx = match self.find_branch(id) {
            Some(i) => i,
            None => {
                proof {
                    assert(final(self)@ =~= old(self)@);
                }
                return Err(Error::BranchNotFound { id });
            },
        };
        proof {
            assert(has_branch(old(self)@.branches, id));
            assert(idx_of(old(self)@.branches, id) == idx as int) by {
                let j = idx_of(old(self)@.branches, id);
                assert(0 <= j < old(self)@.branches.len() && old(self)@.branches[j].id == id);
            }
        }
        if self.branches[idx].applied {
            proof {
                assert(final(self)@ =~= old(self)@);
            }
            return Err(Error::BranchStillApplied);
        }
        let ghost prev = self@.branches;
        let _ = self.branches.remove(idx);
        proof {
            assert(final(self)@.branches =~= prev.remove(idx as int));
            assert(final(self).wf()) by {
                assert forall|i: int| 0 <= i < final(self).branches@.len()
                    implies (#[trigger] final(self).branches@[i]).wf() by {
                    if i < idx as int {
                        assert(old(self).branches@[i].wf());
                    } else {
                        assert(old(self).branches@[i + 1].wf());
                    }
                }
            }
        }
        Ok(())
    }

    /// Sets or clears the applied flag of the branch with the given id,
    /// stamping `updated_ts`; every other field and branch is untouched.
    pub fn set_applied(&mut self, id: BranchId, applied: bool, now: u64) -> (r: Result<(), Error>)
        requires
            old(self).wf(),
        ensures
            final(self)@.default_target == old(self)@.default_target,
            r is Ok <==> has_branch(old(self)@.branches, id),
            r matches Err(e) ==> e == (Error::BranchNotFound { id }) && final(self)@
                == old(self)@,
            r is Ok ==> final(self)@.branches == old(self)@.branches.update(idx_of(
                old(self)@.branches, id), applied_snap(old(self)@.branches[idx_of(
                old(self)@.branches, id)], applied, now as int)),
            final(self).wf(),
    {
        let idx = match self.find_branch(id) {
            Some(i) => i,
            None => {
                proof {
                    assert(final(self)@ =~= old(self)@);
                }
                return Err(Error::BranchNotFound { id });
            },
        };
        proof {
            assert(has_branch(old(self)@.branches, id));
            assert(idx_of(old(self)@.branches, id) == idx as int) by {
                let j = idx_of(old(self)@.branches, id);
                assert(0 <= j < old(self)@.branches.len() && old(self)@.branches[j].id == id);
            }
        }
        let ghost prev = self@.branches;
        let b = &mut self.branches[idx];
        b.applied = applied;
        b.updated_ts = now;
        proof {
            assert(final(self)@.branches =~= prev.update(idx as int, applied_snap(prev[idx as int],
                applied, now as int)));
            assert forall|i: int| 0 <= i < final(self).branches@.len()
                implies (#[trigger] final(self).branches@[i]).wf() by {
                assert(old(self).branches@[i].wf());
            }
        }
        Ok(())
    }

    /// Replaces the branch with the same id, or appends it when absent.
    pub fn set_branch(&mut self, b: Branch) -> (r: ())
        requires
            old(self).wf(),
            b.wf(),
        ensures
            final(self)@.default_target == old(self)@.default_target,
            has_branch(old(self)@.branches, b.id) ==> final(self)@.branches
                == old(self)@.branches.update(idx_of(old(self)@.branches, b.id), b@),
            !has_branch(old(self)@.branches, b.id) ==> final(self)@.branches
                == old(self)@.branches.push(b@),
            final(self).wf(),
    {
        let ghost prev = self@.branches;
        match self.find_branch(b.id) {
            Some(idx) => {
                proof {
                    assert(has_branch(old(self)@.branches, b.id));
                    assert(idx_of(old(self)@.branches, b.id) == idx as int) by {
                        let j = idx_of(old(self)@.branches, b.id);
                        assert(0 <= j < prev.len() && prev[j].id == b.id);
                    }
                }
                let ghost bsnap = b@;
                self.branches[idx] = b;
                proof {
                    assert(final(self)@.branches =~= prev.update(idx as int, bsnap));
                    assert forall|i: int| 0 <= i < final(self).branches@.len()
                        implies (#[trigger] final(self).branches@[i]).wf() by {
                        if i != idx as int {
                            assert(old(self).branches@[i].wf());
                        }
                    }
                }
            },
            None => {
                let ghost bsnap = b@;
                self.branches.push(b);
                proof {
                    assert(final(self)@.branches =~= prev.push(bsnap));
                    assert forall|i: int| 0 <= i < final(self).branches@.len()
                        implies (#[trigger] final(self).branches@[i]).wf() by {
                        if i < prev.len() {
                            assert(old(self).branches@[i].wf());
                        }
                    }
                    assert forall|i: int, j: int| 0 <= i < j < final(self)@.branches.len()
                        implies (#[trigger] final(self)@.branches[i]).id
                            != (#[trigger] final(self)@.branches[j]).id by {
                        if j == final(self)@.branches.len() - 1 {
                            if old(self)@.branches[i].id == b@.id {
                                assert(has_branch(old(self)@.branches, b@.id));
                            }
                        }
                    }
                }
            },
        }
    }

    /// The branches in listing order: ascending by `order`, ties broken by
    /// `created_ts` and then by id.  The result holds exactly the branches of
    /// the document.
    pub fn list_branches(&self) -> (r: Vec<Branch>)
        ensures
            branches_view(r@).to_multiset() == self@.branches.to_multiset(),
            forall|i: int, j: int| 0 <= i < j < r@.len() ==> branch_le(#[trigger] r@[i]@,
                #[trigger] r@[j]@),
            listed_order(branches_view(r@), self@.branches),
    {
        broadcast use vstd::seq_lib::group_to_multiset_ensures;

        let mut out: Vec<Branch> = Vec::new();
        let mut i: usize = 0;
        while i < self.branches.len()
            invariant
                0 <= i <= self.branches@.len(),
                branches_view(out@).to_multiset() == branches_view(self.branches@.take(
                    i as int)).to_multiset(),
                forall|k1: int, k2: int| 0 <= k1 < k2 < out@.len() ==> branch_le(
                    #[trigger] out@[k1]@, #[trigger] out@[k2]@),
            decreases self.branches@.len() - i,
        {
            broadcast use vstd::seq_lib::group_to_multiset_ensures;

            let b = self.branches[i].duplicate();
            let ghost bexec = b;
            let ghost bsnap = b@;
            let ghost prev = out@;
            let mut j: usize = 0;
            while j < out.len() && branch_le_exec(&out[j], &b)
                invariant
                    0 <= j <= out@.len(),
                    out@ == prev,
                    forall|k: int| 0 <= k < j ==> branch_le((#[trigger] out@[k])@, b@),
                decreases out@.len() - j,
            {
                j = j + 1;
            }
            proof {
                if (j as int) < prev.len() {
                    lemma_branch_le_total(prev[j as int]@, bsnap);
                }
            }
            out.insert(j, b);
            proof {
                assert(out@ =~= prev.insert(j as int, bexec));
                assert forall|k1: int, k2: int| 0 <= k1 < k2 < out@.len() implies branch_le(
                    #[trigger] out@[k1]@, #[trigger] out@[k2]@) by {
                    if k1 == j as int {
                        lemma_branch_le_transitive(bsnap, prev[j as int]@, out@[k2]@);
                    } else if k2 == j as int {
                    } else if k1 < j as int && k2 > j as int {
                        assert(branch_le(prev[k1]@, prev[k2 - 1]@));
                    } else {
                        assert(branch_le(prev[k1]@, prev[k2 - 1]@));
                    }
                }
                assert(branches_view(self.branches@.take(i + 1)) =~= branches_view(
                    self.branches@.take(i as int)).push(self.branches@[i as int]@));
                assert(branches_view(out@) =~= branches_view(prev).insert(j as int, bsnap));
            }
            i = i + 1;
        }
        proof {
            assert(self.branches@.take(self.branches@.len() as int) =~= self.branches@);
            assert forall|i: int, j: int| 0 <= i < j < branches_view(out@).len() implies branch_le(
                #[trigger] branches_view(out@)[i], #[trigger] branches_view(out@)[j]) by {
                assert(branches_view(out@)[i] == out@[i]@);
                assert(branches_view(out@)[j] == out@[j]@);
            }
        }
        out
    }

    /// Updates the branch named by the request: a set field replaces the
    /// branch's value, an unset one leaves it unchanged; `updated_ts` is
    /// stamped.  Every other branch is untouched.
    pub fn update_virtual_branch(&mut self, req: BranchUpdateRequest, now: u64) -> (r: Result<
        (),
        Error,
    >)
        requires
            old(self).wf(),
            (req.ownership matches Some(o) ==> o.wf()),
        ensures
            final(self).wf(),
            final(self)@.default_target == old(self)@.default_target,
            r is Ok <==> has_branch(old(self)@.branches, req.id),
            r matches Err(e) ==> e == (Error::BranchNotFound { id: req.id }) && final(self)@
                == old(self)@,
            r is Ok ==> final(self)@.branches == old(self)@.branches.update(idx_of(
                old(self)@.branches, req.id), updated_branch_snap(old(self)@.branches[idx_of(
                old(self)@.branches, req.id)], req, now as int)),
    {
        let ghost reqg = req;
        let idx = match self.find_branch(req.id) {
            Some(i) => i,
            None => {
                proof {
                    assert(final(self)@ =~= old(self)@);
                }
                return Err(Error::BranchNotFound { id: req.id });
            },
        };
        proof {
            assert(has_branch(old(self)@.branches, req.id));
            assert(idx_of(old(self)@.branches, req.id) == idx as int) by {
                let j = idx_of(old(self)@.branches, req.id);
                assert(0 <= j < old(self)@.branches.len() && old(self)@.branches[j].id == req.id);
            }
        }
        let ghost prev = self@.branches;
        let b = &mut self.branches[idx];
        match req.name {
            Some(n) => {
                b.name = n;
            },
            None => {},
        }
        match req.notes {
            Some(n) => {
                b.notes = n;
            },
            None => {},
        }
        match req.upstream {
            Some(u) => {
                b.upstream = Some(u);
            },
            None => {},
        }
        match req.ownership {
            Some(o) => {
                b.ownership = o;
            },
            None => {},
        }
        match req.order {
            Some(o) => {
                b.order = o;
            },
            None => {},
        }
        b.updated_ts = now;
        proof {
            assert(final(self)@.branches[idx as int] =~= updated_branch_snap(prev[idx as int],
                reqg, now as int));
            assert(final(self)@.branches =~= prev.update(idx as int, updated_branch_snap(
                prev[idx as int], reqg, now as int)));
            assert forall|i: int| 0 <= i < final(self).branches@.len()
                implies (#[trigger] final(self).branches@[i]).wf() by {
                if i != idx as int {
                    assert(old(self).branches@[i].wf());
                }
            }
        }
        Ok(())
    }
}

/// The snapshot of a branch after an update request: each set field replaces
/// the branch's value, an unset one leaves it unchanged.
pub open spec fn updated_branch_snap(b: BranchSnap, req: BranchUpdateRequest, now: int) -> BranchSnap {
    BranchSnap {
        name: match req.name {
            Some(n) => n@,
            None => b.name,
        },
        notes: match req.notes {
            Some(n) => n@,
            None => b.notes,
        },
        upstream: match req.upstream {
            Some(u) => Some(u@),
            None => b.upstream,
        },
        ownership: match req.ownership {
            Some(o) => ownership_view(o),
            None => b.ownership,
        },
        order: match req.order {
            Some(o) => o as int,
            None => b.order,
        },
        updated_ts: now,
        ..b
    }
}

/// The snapshot of the branch that `create_virtual_branch` makes of a request.
pub open spec fn created_branch_snap(
    req: BranchCreateRequest,
    id: BranchId,
    head: Oid,
    tree: Oid,
    now: u64,
    default_order: int,
) -> BranchSnap {
    BranchSnap {
        id,
        name: match req.name {
            Some(n) => n@,
            None => "Virtual branch"@,
        },
        notes: Seq::empty(),
        applied: false,
        upstream: None,
        head,
        tree,
        ownership: match req.ownership {
            Some(o) => ownership_view(o),
            None => Seq::empty(),
        },
        order: match req.order {
            Some(o) => o as int,
            None => default_order,
        },
        created_ts: now as int,
        updated_ts: now as int,
    }
}

/// The snapshot of a branch after its applied flag is set and its update
/// timestamp stamped.
pub open spec fn applied_snap(b: BranchSnap, applied: bool, now: int) -> BranchSnap {
    BranchSnap { applied, updated_ts: now, ..b }
}

/// Applying a branch and then unapplying it leaves every persisted field of
/// every branch as it was, except the branch's own `updated_ts`.
pub proof fn lemma_apply_unapply_round_trip(bs: Seq<BranchSnap>, idx: int, t1: int, t2: int)
    requires
        0 <= idx < bs.len(),
        !bs[idx].applied,
    ensures
        bs.update(idx, applied_snap(bs[idx], true, t1)).update(idx, applied_snap(
            bs.update(idx, applied_snap(bs[idx], true, t1))[idx], false, t2)) =~= bs.update(idx,
            BranchSnap { updated_ts: t2, ..bs[idx] }),
{
}

/// Creating a virtual branch and then deleting it restores the branch list,
/// so no hidden ref that integration maintains for the document remains.
pub proof fn lemma_create_delete_round_trip(bs: Seq<BranchSnap>, b: BranchSnap)
    requires
        !has_branch(bs, b.id),
    ensures
        idx_of(bs.push(b), b.id) == bs.len(),
        bs.push(b).remove(idx_of(bs.push(b), b.id)) =~= bs,
        hidden_ref_names(bs.push(b).remove(idx_of(bs.push(b), b.id))) =~= hidden_ref_names(bs),
{
    let j = idx_of(bs.push(b), b.id);
    assert(bs.push(b)[bs.len() as int].id == b.id);
    assert(0 <= j < bs.push(b).len() && bs.push(b)[j].id == b.id);
    if j < bs.len() {
        assert(bs[j].id == b.id);
        assert(has_branch(bs, b.id));
    }
}

} // verus!
