//! Ownership claims: which (file path, line ranges) belong to which virtual
//! branch.  Applied branches must never claim the same (path, line) twice.

use vstd::prelude::*;

verus! {

/// A non-empty range of lines of one file, inclusive on both ends and
/// one-based, as line numbers are shown to the user.
#[derive(Clone, Copy, PartialEq, Eq, Structural, Debug)]
pub struct LineRange {
    pub start: u64,
    pub end: u64,
}

impl LineRange {
    /// A range is well formed when it names at least one line.
    pub open spec fn wf(self) -> bool {
        1 <= self.start <= self.end
    }

    /// Whether line `l` lies inside the range.
    pub open spec fn covers(self, l: int) -> bool {
        self.start <= l <= self.end
    }
}

/// Whether any range of `rs` covers line `l`.
pub open spec fn ranges_cover(rs: Seq<LineRange>, l: int) -> bool {
    exists|i: int| 0 <= i < rs.len() && rs[i].covers(l)
}

/// The ranges of one claim are well formed, sorted, and separated by at
/// least one unclaimed line, so every claim has one canonical form.
pub open spec fn ranges_wf(rs: Seq<LineRange>) -> bool {
    &&& forall|i: int| 0 <= i < rs.len() ==> #[trigger] rs[i].wf()
    &&& forall|i: int, j: int| 0 <= i < j < rs.len() ==> #[trigger] rs[i].end + 1 < #[trigger] rs[j].start
}

/// The claim of one branch on one file: the path and the owned line ranges.
#[derive(Clone, PartialEq, Debug)]
pub struct OwnershipClaim {
    pub file_path: String,
    pub ranges: Vec<LineRange>,
}

impl OwnershipClaim {
    pub open spec fn wf(self) -> bool {
        ranges_wf(self.ranges@)
    }

    /// Whether the claim owns line `l` of file `path`.
    pub open spec fn owns(self, path: Seq<char>, l: int) -> bool {
        self.file_path@ == path && ranges_cover(self.ranges@, l)
    }

    /// An exact copy of the claim.
    pub fn duplicate(&self) -> (r: OwnershipClaim)
        ensures
            r.file_path@ == self.file_path@,
            r.ranges@ == self.ranges@,
    {
        OwnershipClaim { file_path: self.file_path.clone(), ranges: copy_ranges(&self.ranges) }
    }
}

/// A fresh vector holding the same ranges.
pub fn copy_ranges(v: &Vec<LineRange>) -> (r: Vec<LineRange>)
    ensures
        r@ == v@,
{
    let mut out: Vec<LineRange> = Vec::new();
    let mut i: usize = 0;
    while i < v.len()
        invariant
            0 <= i <= v@.len(),
            out@ == v@.take(i as int),
        decreases v@.len() - i,
    {
        out.push(v[i]);
        proof {
            assert(v@.take(i + 1) =~= v@.take(i as int).push(v@[i as int]));
        }
        i = i + 1;
    }
    proof {
        assert(v@.take(v@.len() as int) =~= v@);
    }
    out
}

/// All claims of one branch, ordered as the user arranged them.
#[derive(Clone, PartialEq, Debug)]
pub struct BranchOwnershipClaims {
    pub claims: Vec<OwnershipClaim>,
}

impl BranchOwnershipClaims {
    /// Each claim is well formed.
    pub open spec fn wf(self) -> bool {
        forall|i: int| 0 <= i < self.claims@.len() ==> (#[trigger] self.claims@[i]).wf()
    }

    /// Whether this branch owns line `l` of file `path`.
    pub open spec fn owns(self, path: Seq<char>, l: int) -> bool {
        claims_own(self.claims@, path, l)
    }

    /// A branch with no claims at all.
    pub fn empty() -> (r: BranchOwnershipClaims)
        ensures
            r.claims@.len() == 0,
            r.wf(),
            forall|path: Seq<char>, l: int| !r.owns(path, l),
    {
        BranchOwnershipClaims { claims: Vec::new() }
    }
}

/// Two ownership sets are disjoint when no line of any file is owned by both.
pub open spec fn ownership_disjoint(a: BranchOwnershipClaims, b: BranchOwnershipClaims) -> bool {
    forall|path: Seq<char>, l: int| !(a.owns(path, l) && b.owns(path, l))
}

/// Claims that only shrink stay pairwise disjoint: removing lines from two
/// branches can never make them overlap.
pub proof fn lemma_disjoint_after_shrink(
    a1: BranchOwnershipClaims,
    a2: BranchOwnershipClaims,
    b1: BranchOwnershipClaims,
    b2: BranchOwnershipClaims,
)
    requires
        ownership_disjoint(a1, b1),
        forall|p: Seq<char>, l: int| #[trigger] a2.owns(p, l) ==> a1.owns(p, l),
        forall|p: Seq<char>, l: int| #[trigger] b2.owns(p, l) ==> b1.owns(p, l),
    ensures
        ownership_disjoint(a2, b2),
{
}

/// Removes the lines of `sub` from the sorted range list `rs`, range by
/// range, returning the canonical form of what remains.
pub fn subtract_ranges(rs: &Vec<LineRange>, sub: LineRange) -> (r: Vec<LineRange>)
    requires
        ranges_wf(rs@),
        sub.wf(),
    ensures
        ranges_wf(r@),
        forall|l: int| #![all_triggers] ranges_cover(r@, l) <==> (ranges_cover(rs@, l) && !sub.covers(l)),
{
    let mut out: Vec<LineRange> = Vec::new();
    let mut i: usize = 0;
    while i < rs.len()
        invariant
            ranges_wf(rs@),
            sub.wf(),
            0 <= i <= rs@.len(),
            ranges_wf(out@),
            forall|l: int| #![all_triggers]
                ranges_cover(out@, l) <==> (ranges_cover(rs@.take(i as int), l) && !sub.covers(l)),
            forall|k: int| 0 <= k < out@.len() ==> i > 0 && #[trigger] out@[k].end <= rs@[i - 1].end,
        decreases rs@.len() - i,
    {
        let cur = rs[i];
        let ghost prev_out = out@;
        proof {
            assert(rs@[i as int].wf());
            if i > 0 {
                assert(rs@[i - 1].end + 1 < rs@[i as int].start);
            }
        }
        if cur.end < sub.start || cur.start > sub.end {
            out.push(cur);
        } else {
            if cur.start < sub.start {
                let left = LineRange { start: cur.start, end: sub.start - 1 };
                out.push(left);
            }
            if sub.end < cur.end {
                let right = LineRange { start: sub.end + 1, end: cur.end };
                out.push(right);
            }
        }
        proof {
            // Every element added this round is a well-formed piece of `cur`,
            // so the output stays sorted and bounded by `cur.end`.
            assert forall|k: int| 0 <= k < out@.len() implies #[trigger] out@[k].end
                <= rs@[i as int].end by {
                if k < prev_out.len() {
                    assert(prev_out[k].end <= rs@[i - 1].end);
                }
            }
            assert forall|k: int| prev_out.len() <= k < out@.len() implies #[trigger] out@[k].start
                >= cur.start by {}
            assert forall|k1: int, k2: int| 0 <= k1 < k2 < out@.len() implies #[trigger] out@[k1].end
                + 1 < #[trigger] out@[k2].start by {
                if k2 < prev_out.len() {
                    assert(prev_out[k1].end + 1 < prev_out[k2].start);
                } else if k1 < prev_out.len() {
                    assert(prev_out[k1].end <= rs@[i - 1].end);
                    assert(out@[k2].start >= cur.start);
                }
            }
            assert forall|l: int| #![all_triggers]
                ranges_cover(out@, l) <==> (ranges_cover(rs@.take(i + 1), l) && !sub.covers(l)) by {
                lemma_cover_take_one_more(rs@, i as int, l);
                if cur.end < sub.start || cur.start > sub.end {
                    lemma_cover_push(prev_out, cur, l);
                } else if cur.start < sub.start && sub.end < cur.end {
                    let left = LineRange { start: cur.start, end: (sub.start - 1) as u64 };
                    let right = LineRange { start: (sub.end + 1) as u64, end: cur.end };
                    lemma_cover_push(prev_out, left, l);
                    lemma_cover_push(prev_out.push(left), right, l);
                } else if cur.start < sub.start {
                    let left = LineRange { start: cur.start, end: (sub.start - 1) as u64 };
                    lemma_cover_push(prev_out, left, l);
                } else if sub.end < cur.end {
                    let right = LineRange { start: (sub.end + 1) as u64, end: cur.end };
                    lemma_cover_push(prev_out, right, l);
                }
            }
        }
        i = i + 1;
    }
    proof {
        assert(rs@.take(rs@.len() as int) =~= rs@);
    }
    out
}

/// Pushing a range onto a list covers exactly the old lines and the new ones.
proof fn lemma_cover_push(rs: Seq<LineRange>, r: LineRange, l: int)
    ensures
        ranges_cover(rs.push(r), l) <==> (ranges_cover(rs, l) || r.covers(l)),
{
    if ranges_cover(rs, l) {
        let i = choose|i: int| 0 <= i < rs.len() && rs[i].covers(l);
        assert(rs.push(r)[i].covers(l));
    }
    if r.covers(l) {
        assert(rs.push(r)[rs.len() as int].covers(l));
    }
    if ranges_cover(rs.push(r), l) {
        let i = choose|i: int| 0 <= i < rs.push(r).len() && rs.push(r)[i].covers(l);
        if i < rs.len() {
            assert(rs[i].covers(l));
        }
    }
}

/// Extending the processed prefix by one range extends the covered lines by
/// exactly the lines of that range.
proof fn lemma_cover_take_one_more(rs: Seq<LineRange>, i: int, l: int)
    requires
        0 <= i < rs.len(),
    ensures
        ranges_cover(rs.take(i + 1), l) <==> (ranges_cover(rs.take(i), l) || rs[i].covers(l)),
{
    assert(rs.take(i + 1) =~= rs.take(i).push(rs[i]));
    lemma_cover_push(rs.take(i), rs[i], l);
}

/// Removes the lines of `(path, sub)` from the branch's claims; a claim left
/// without lines is dropped, claims on other files are untouched.
pub fn subtract_claim(own: &BranchOwnershipClaims, path: &String, sub: LineRange) -> (r:
    BranchOwnershipClaims)
    requires
        own.wf(),
        sub.wf(),
    ensures
        r.wf(),
        forall|p: Seq<char>, l: int| #![all_triggers]
            r.owns(p, l) <==> (own.owns(p, l) && !(p == path@ && sub.covers(l))),
{
    let mut out: Vec<OwnershipClaim> = Vec::new();
    let mut i: usize = 0;
    while i < own.claims.len()
        invariant
            own.wf(),
            sub.wf(),
            0 <= i <= own.claims@.len(),
            forall|k: int| 0 <= k < out@.len() ==> (#[trigger] out@[k]).wf(),
            forall|p: Seq<char>, l: int| #![all_triggers]
                claims_own(out@, p, l) <==> (claims_own(own.claims@.take(i as int), p, l) && !(p
                    == path@ && sub.covers(l))),
        decreases own.claims@.len() - i,
    {
        let cur = &own.claims[i];
        let ghost prev_out = out@;
        proof {
            assert(own.claims@[i as int].wf());
        }
        if cur.file_path == *path {
            let kept = subtract_ranges(&cur.ranges, sub);
            let ghost keptv = kept@;
            if kept.len() > 0 {
                out.push(OwnershipClaim { file_path: cur.file_path.clone(), ranges: kept });
            }
            proof {
                assert forall|p: Seq<char>, l: int|
                    claims_own(out@, p, l) <==> (claims_own(own.claims@.take(i + 1), p, l) && !(p
                        == path@ && sub.covers(l))) by {
                    lemma_claims_own_take_one_more(own.claims@, i as int, p, l);
                    assert(ranges_cover(keptv, l) <==> (ranges_cover(own.claims@[i as int].ranges@,
                        l) && !sub.covers(l)));
                    if keptv.len() > 0 {
                        lemma_claims_own_push(prev_out, out@[out@.len() - 1], p, l);
                    }
                }
            }
        } else {
            out.push(cur.duplicate());
            proof {
                assert forall|p: Seq<char>, l: int|
                    claims_own(out@, p, l) <==> (claims_own(own.claims@.take(i + 1), p, l) && !(p
                        == path@ && sub.covers(l))) by {
                    lemma_claims_own_take_one_more(own.claims@, i as int, p, l);
                    lemma_claims_own_push(prev_out, out@[out@.len() - 1], p, l);
                }
            }
        }
        i = i + 1;
    }
    proof {
        assert(own.claims@.take(own.claims@.len() as int) =~= own.claims@);
    }
    BranchOwnershipClaims { claims: out }
}

/// Whether any claim of `cs` owns line `l` of `path`.
pub open spec fn claims_own(cs: Seq<OwnershipClaim>, path: Seq<char>, l: int) -> bool {
    exists|i: int| 0 <= i < cs.len() && (#[trigger] cs[i]).owns(path, l)
}

proof fn lemma_claims_own_push(cs: Seq<OwnershipClaim>, c: OwnershipClaim, path: Seq<char>, l: int)
    ensures
        claims_own(cs.push(c), path, l) <==> (claims_own(cs, path, l) || c.owns(path, l)),
{
    if claims_own(cs, path, l) {
        let i = choose|i: int| 0 <= i < cs.len() && cs[i].owns(path, l);
        assert(cs.push(c)[i].owns(path, l));
    }
    if c.owns(path, l) {
        assert(cs.push(c)[cs.len() as int].owns(path, l));
    }
    if claims_own(cs.push(c), path, l) {
        let i = choose|i: int| 0 <= i < cs.push(c).len() && cs.push(c)[i].owns(path, l);
        if i < cs.len() {
            assert(cs[i].owns(path, l));
        }
    }
}

proof fn lemma_claims_own_take_one_more(cs: Seq<OwnershipClaim>, i: int, path: Seq<char>, l: int)
    requires
        0 <= i < cs.len(),
    ensures
        claims_own(cs.take(i + 1), path, l) <==> (claims_own(cs.take(i), path, l) || cs[i].owns(
            path,
            l,
        )),
{
    assert(cs.take(i + 1) =~= cs.take(i).push(cs[i]));
    lemma_claims_own_push(cs.take(i), cs[i], path, l);
}

} // verus!
