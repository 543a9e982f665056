//! The virtual-branch data model: pure values describing one working line,
//! and the requests that create or update one.

use vstd::prelude::*;
use crate::ids::{BranchId, Oid};
use crate::ownership::{BranchOwnershipClaims, OwnershipClaim, copy_ranges};

verus! {

/// The spec-level snapshot of one ownership claim.
#[verifier::ext_equal]
pub ghost struct ClaimSnap {
    pub path: Seq<char>,
    pub ranges: Seq<crate::ownership::LineRange>,
}

impl View for OwnershipClaim {
    type V = ClaimSnap;

    open spec fn view(&self) -> ClaimSnap {
        ClaimSnap { path: self.file_path@, ranges: self.ranges@ }
    }
}

/// The spec-level snapshot of a branch's ownership.
pub open spec fn ownership_view(own: BranchOwnershipClaims) -> Seq<ClaimSnap> {
    own.claims@.map_values(|c: OwnershipClaim| c@)
}

/// A user-visible working line: committed history up to `head`, uncommitted
/// work in `tree`, and the files and lines the branch claims.
#[derive(Debug)]
pub struct Branch {
    pub id: BranchId,
    pub name: String,
    pub notes: String,
    pub applied: bool,
    pub upstream: Option<String>,
    pub head: Oid,
    pub tree: Oid,
    pub ownership: BranchOwnershipClaims,
    pub order: usize,
    pub created_ts: u64,
    pub updated_ts: u64,
}

/// The spec-level snapshot of a branch: every persisted field, with strings
/// and sequences abstracted to their views.
#[verifier::ext_equal]
pub ghost struct BranchSnap {
    pub id: BranchId,
    pub name: Seq<char>,
    pub notes: Seq<char>,
    pub applied: bool,
    pub upstream: Option<Seq<char>>,
    pub head: Oid,
    pub tree: Oid,
    pub ownership: Seq<ClaimSnap>,
    pub order: int,
    pub created_ts: int,
    pub updated_ts: int,
}

impl View for Branch {
    type V = BranchSnap;

    open spec fn view(&self) -> BranchSnap {
        BranchSnap {
            id: self.id,
            name: self.name@,
            notes: self.notes@,
            applied: self.applied,
            upstream: match self.upstream {
                Some(u) => Some(u@),
                None => None,
            },
            head: self.head,
            tree: self.tree,
            ownership: ownership_view(self.ownership),
            order: self.order as int,
            created_ts: self.created_ts as int,
            updated_ts: self.updated_ts as int,
        }
    }
}

impl Branch {
    pub open spec fn wf(self) -> bool {
        self.ownership.wf()
    }

    /// An exact copy of the branch.
    pub fn duplicate(&self) -> (r: Branch)
        ensures
            r@ == self@,
            self.wf() ==> r.wf(),
    {
        let r = Branch {
            id: self.id,
            name: self.name.clone(),
            notes: self.notes.clone(),
            applied: self.applied,
            upstream: clone_opt_string(&self.upstream),
            head: self.head,
            tree: self.tree,
            ownership: duplicate_ownership(&self.ownership),
            order: self.order,
            created_ts: self.created_ts,
            updated_ts: self.updated_ts,
        };
        proof {
            assert(ownership_view(r.ownership) =~= ownership_view(self.ownership));
            assert(r@ =~= self@);
        }
        r
    }

    /// The name of the branch's hidden ref.
    pub fn refname(&self) -> (r: String)
        ensures
            r@ == hidden_ref_name(self.name@),
    {
        let mut s = String::new();
        s.append("refs/gitbutler/");
        s.append(self.name.as_str());
        s
    }
}

/// The full name of the hidden ref kept for a branch called `name`.
pub open spec fn hidden_ref_name(name: Seq<char>) -> Seq<char> {
    "refs/gitbutler/"@ + name
}

/// A fresh copy of an optional string.
pub fn clone_opt_string(o: &Option<String>) -> (r: Option<String>)
    ensures
        (match *o {
            Some(s) => r matches Some(t) && t@ == s@,
            None => r is None,
        }),
{
    match o {
        Some(s) => Some(s.clone()),
        None => None,
    }
}

/// A fresh copy of a branch's ownership claims.
pub fn duplicate_ownership(own: &BranchOwnershipClaims) -> (r: BranchOwnershipClaims)
    ensures
        ownership_view(r) == ownership_view(*own),
        own.wf() ==> r.wf(),
{
    let mut claims: Vec<OwnershipClaim> = Vec::new();
    let mut i: usize = 0;
    while i < own.claims.len()
        invariant
            0 <= i <= own.claims@.len(),
            claims@.len() == i,
            forall|k: int| 0 <= k < i ==> (#[trigger] claims@[k])@ == own.claims@[k]@,
        decreases own.claims@.len() - i,
    {
        let c = &own.claims[i];
        claims.push(OwnershipClaim { file_path: c.file_path.clone(), ranges: copy_ranges(&c.ranges) });
        i = i + 1;
    }
    let r = BranchOwnershipClaims { claims };
    proof {
        assert(ownership_view(r) =~= ownership_view(*own));
        if own.wf() {
            assert forall|k: int| 0 <= k < r.claims@.len() implies (#[trigger] r.claims@[k]).wf() by {
                assert(own.claims@[k].wf());
                assert(r.claims@[k]@ == own.claims@[k]@);
                assert(r.claims@[k].ranges@ == own.claims@[k].ranges@);
            }
        }
    }
    r
}

/// What `create_virtual_branch` is given: unset fields take model defaults.
#[derive(Debug)]
pub struct BranchCreateRequest {
    pub name: Option<String>,
    pub ownership: Option<BranchOwnershipClaims>,
    pub order: Option<usize>,
}

/// What `update_virtual_branch` is given: `None` means "unchanged".
#[derive(Debug)]
pub struct BranchUpdateRequest {
    pub id: BranchId,
    pub name: Option<String>,
    pub notes: Option<String>,
    pub upstream: Option<String>,
    pub ownership: Option<BranchOwnershipClaims>,
    pub order: Option<usize>,
}

/// The order in which `list_branches` returns branches: by `order`, ties by
/// `created_ts`, then by id.
pub open spec fn branch_le(a: BranchSnap, b: BranchSnap) -> bool {
    ||| a.order < b.order
    ||| (a.order == b.order && a.created_ts < b.created_ts)
    ||| (a.order == b.order && a.created_ts == b.created_ts && id_le(a.id, b.id))
}

pub open spec fn id_le(a: BranchId, b: BranchId) -> bool {
    ||| a.hi < b.hi
    ||| (a.hi == b.hi && a.lo <= b.lo)
}

/// `branch_le` orders every pair of branches one way or the other.
pub proof fn lemma_branch_le_total(a: BranchSnap, b: BranchSnap)
    ensures
        branch_le(a, b) || branch_le(b, a),
{
}

pub proof fn lemma_branch_le_transitive(a: BranchSnap, b: BranchSnap, c: BranchSnap)
    ensures
        branch_le(a, b) && branch_le(b, c) ==> branch_le(a, c),
{
}

/// Whether `a` comes no later than `b` in the listing order.
pub fn branch_le_exec(a: &Branch, b: &Branch) -> (r: bool)
    ensures
        r == branch_le(a@, b@),
{
    if a.order != b.order {
        a.order < b.order
    } else if a.created_ts != b.created_ts {
        a.created_ts < b.created_ts
    } else if a.id.hi != b.id.hi {
        a.id.hi < b.id.hi
    } else {
        a.id.lo <= b.id.lo
    }
}

} // verus!
