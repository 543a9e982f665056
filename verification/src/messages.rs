//! The exact text the engine writes: commit messages and the sidecar line
//! that records the branch the user was on before integration took over.

use vstd::prelude::*;
use crate::ids::Oid;
use crate::branch::{Branch, BranchSnap, ClaimSnap, hidden_ref_name, ownership_view};
use crate::store::branches_view;

verus! {

/// The hexadecimal digit for a value below sixteen.
pub open spec fn hex_digit(n: int) -> char {
    if n == 0 { '0' } else if n == 1 { '1' } else if n == 2 { '2' } else if n == 3 { '3' }
    else if n == 4 { '4' } else if n == 5 { '5' } else if n == 6 { '6' } else if n == 7 { '7' }
    else if n == 8 { '8' } else if n == 9 { '9' } else if n == 10 { 'a' } else if n == 11 { 'b' }
    else if n == 12 { 'c' } else if n == 13 { 'd' } else if n == 14 { 'e' } else { 'f' }
}

/// The last `n` hexadecimal digits of `v`, most significant first.
pub open spec fn hex_seq(v: int, n: nat) -> Seq<char>
    decreases n,
{
    if n == 0 {
        Seq::empty()
    } else {
        hex_seq(v / 16, (n - 1) as nat).push(hex_digit(v % 16))
    }
}

/// The forty-digit hexadecimal form of an object id.
pub open spec fn oid_hex(o: Oid) -> Seq<char> {
    hex_seq(o.w0 as int, 16) + hex_seq(o.w1 as int, 16) + hex_seq(o.w2 as int, 8)
}

/// One hexadecimal digit as text.
fn digit_str(d: u64) -> (r: &'static str)
    requires
        d < 16,
    ensures
        r@ == seq![hex_digit(d as int)],
{
    if d == 0 { proof { reveal_strlit("0"); assert("0"@ =~= seq![hex_digit(0)]); } "0" }
    else if d == 1 { proof { reveal_strlit("1"); assert("1"@ =~= seq![hex_digit(1)]); } "1" }
    else if d == 2 { proof { reveal_strlit("2"); assert("2"@ =~= seq![hex_digit(2)]); } "2" }
    else if d == 3 { proof { reveal_strlit("3"); assert("3"@ =~= seq![hex_digit(3)]); } "3" }
    else if d == 4 { proof { reveal_strlit("4"); assert("4"@ =~= seq![hex_digit(4)]); } "4" }
    else if d == 5 { proof { reveal_strlit("5"); assert("5"@ =~= seq![hex_digit(5)]); } "5" }
    else if d == 6 { proof { reveal_strlit("6"); assert("6"@ =~= seq![hex_digit(6)]); } "6" }
    else if d == 7 { proof { reveal_strlit("7"); assert("7"@ =~= seq![hex_digit(7)]); } "7" }
    else if d == 8 { proof { reveal_strlit("8"); assert("8"@ =~= seq![hex_digit(8)]); } "8" }
    else if d == 9 { proof { reveal_strlit("9"); assert("9"@ =~= seq![hex_digit(9)]); } "9" }
    else if d == 10 { proof { reveal_strlit("a"); assert("a"@ =~= seq![hex_digit(10)]); } "a" }
    else if d == 11 { proof { reveal_strlit("b"); assert("b"@ =~= seq![hex_digit(11)]); } "b" }
    else if d == 12 { proof { reveal_strlit("c"); assert("c"@ =~= seq![hex_digit(12)]); } "c" }
    else if d == 13 { proof { reveal_strlit("d"); assert("d"@ =~= seq![hex_digit(13)]); } "d" }
    else if d == 14 { proof { reveal_strlit("e"); assert("e"@ =~= seq![hex_digit(14)]); } "e" }
    else { proof { reveal_strlit("f"); assert("f"@ =~= seq![hex_digit(15)]); } "f" }
}

/// The last `n` hexadecimal digits of `v` as text, most significant first.
pub fn hex_str(v: u64, n: u8) -> (r: String)
    requires
        n <= 16,
    ensures
        r@ == hex_seq(v as int, n as nat),
    decreases n,
{
    if n == 0 {
        String::new()
    } else {
        let mut s = hex_str(v / 16, n - 1);
        s.append(digit_str(v % 16));
        proof {
            assert(s@ =~= hex_seq(v as int, n as nat));
        }
        s
    }
}

/// The forty-digit hexadecimal form of an object id.
pub fn oid_to_hex(o: &Oid) -> (r: String)
    ensures
        r@ == oid_hex(*o),
{
    let mut s = hex_str(o.w0, 16);
    let s1 = hex_str(o.w1, 16);
    s.append(s1.as_str());
    let s2 = hex_str(o.w2 as u64, 8);
    s.append(s2.as_str());
    proof {
        assert((o.w2 as u64) as int == o.w2 as int);
        assert(s@ =~= oid_hex(*o));
    }
    s
}

/// The branch the user was on before the head moved to the integration ref,
/// as recorded in the sidecar file.
#[derive(Debug)]
pub struct PreviousHead {
    /// The full name of the previous head ref.
    pub head: String,
    /// The hexadecimal id of the commit that ref pointed at.
    pub sha: String,
}

#[verifier::ext_equal]
pub ghost struct PrevSnap {
    pub head: Seq<char>,
    pub sha: Seq<char>,
}

impl View for PreviousHead {
    type V = PrevSnap;

    open spec fn view(&self) -> PrevSnap {
        PrevSnap { head: self.head@, sha: self.sha@ }
    }
}

/// The snapshot of an optional previous head.
pub open spec fn prev_view(p: Option<PreviousHead>) -> Option<PrevSnap> {
    match p {
        Some(q) => Some(q@),
        None => None,
    }
}

/// The one line the sidecar file holds: `<refname>:<sha>`.
pub open spec fn sidecar_line(head: Seq<char>, sha: Seq<char>) -> Seq<char> {
    head + ":"@ + sha
}

/// Renders a previous head as the sidecar line.
pub fn format_integration_sidecar(p: &PreviousHead) -> (r: String)
    ensures
        r@ == sidecar_line(p@.head, p@.sha),
{
    let mut s = p.head.clone();
    s.append(":");
    s.append(p.sha.as_str());
    proof {
        assert(s@ =~= sidecar_line(p@.head, p@.sha));
    }
    s
}

/// Splits a sidecar line on its first `:`; malformed input (no `:` at all)
/// is rejected.
pub fn parse_integration_sidecar(s: &String) -> (r: Option<PreviousHead>)
    ensures
        r is Some <==> (exists|i: int| 0 <= i < s@.len() && s@[i] == ':'),
        r matches Some(p) ==> {
            let i = first_colon(s@);
            &&& 0 <= i < s@.len() && s@[i] == ':'
            &&& (forall|j: int| 0 <= j < i ==> s@[j] != ':')
            &&& p@.head == s@.subrange(0, i)
            &&& p@.sha == s@.subrange(i + 1, s@.len() as int)
        },
{
    let n = s.as_str().unicode_len();
    let mut i: usize = 0;
    while i < n
        invariant
            n == s@.len(),
            0 <= i <= n,
            forall|j: int| 0 <= j < i ==> s@[j] != ':',
        decreases n - i,
    {
        if s.as_str().get_char(i) == ':' {
            proof {
                assert(first_colon(s@) == i as int) by {
                    let k = first_colon(s@);
                    assert(s@[i as int] == ':');
                    if k < i as int {
                        assert(s@[k] != ':');
                    }
                }
            }
            let head = s.as_str().substring_char(0, i);
            let sha = s.as_str().substring_char(i + 1, n);
            return Some(PreviousHead {
                head: String::from_str(head),
                sha: String::from_str(sha),
            });
        }
        i = i + 1;
    }
    None
}

/// The position of the first `:` of `s` (meaningful when one exists).
pub open spec fn first_colon(s: Seq<char>) -> int {
    choose|i: int| 0 <= i < s.len() && s[i] == ':' && (forall|j: int| 0 <= j < i ==> s[j] != ':')
}

/// The message of the synthetic commit that keeps a branch's uncommitted
/// tree reachable while the branch has work in progress.
pub open spec fn wip_message(name: Seq<char>) -> Seq<char> {
    "GitButler WIP Commit"@ + "\n\n"@ + "This is a WIP commit for the virtual branch '"@ + name
        + "'\n\n"@
        + "This commit is used to store the state of the virtual branch\nwhile you are working on it. It is not meant to be used for\nanything else.\n\n"@
}

/// Builds the message of a branch's WIP commit.
pub fn wip_commit_message(name: &String) -> (r: String)
    ensures
        r@ == wip_message(name@),
{
    let mut m = String::new();
    m.append("GitButler WIP Commit");
    m.append("\n\n");
    m.append("This is a WIP commit for the virtual branch '");
    m.append(name.as_str());
    m.append("'\n\n");
    m.append(
        "This commit is used to store the state of the virtual branch\nwhile you are working on it. It is not meant to be used for\nanything else.\n\n",
    );
    proof {
        assert(m@ =~= wip_message(name@));
    }
    m
}

/// The message of the commit that records the merged workspace tree.
pub open spec fn workspace_head_message() -> Seq<char> {
    "Workspace Head"@
}

/// The fixed opening of the integration commit message.
pub open spec fn integration_preamble() -> Seq<char> {
    "GitButler Integration Commit"@ + "\n\n"@
        + "This is an integration commit for the virtual branches that GitButler is tracking.\n\n"@
        + "Due to GitButler managing multiple virtual branches, you cannot switch back and\n"@
        + "forth between git branches and virtual branches easily. \n\n"@
        + "If you switch to another branch, GitButler will need to be reinitialized.\n"@
        + "If you commit on this branch, GitButler will throw it away.\n\n"@
        + "Here are the branches that are currently applied:\n"@
}

/// The line written for one claimed file of a branch.
pub open spec fn claim_line(c: ClaimSnap) -> Seq<char> {
    "   - "@ + c.path + "\n"@
}

/// The lines written for a branch's claimed files, in claim order.
pub open spec fn claims_lines(cs: Seq<ClaimSnap>) -> Seq<char>
    decreases cs.len(),
{
    if cs.len() == 0 {
        Seq::empty()
    } else {
        claims_lines(cs.drop_last()) + claim_line(cs.last())
    }
}

/// The bullet written for one applied branch: its name and hidden ref, its
/// head when it differs from the target, and its claimed files.
pub open spec fn branch_bullet(b: BranchSnap, target_sha: Oid) -> Seq<char> {
    " - "@ + b.name + " ("@ + hidden_ref_name(b.name) + ")\n"@ + (if b.head != target_sha {
        "   branch head: "@ + oid_hex(b.head) + "\n"@
    } else {
        Seq::empty()
    }) + claims_lines(b.ownership)
}

/// The bullets for all applied branches, in list order.
pub open spec fn branch_bullets(bs: Seq<BranchSnap>, target_sha: Oid) -> Seq<char>
    decreases bs.len(),
{
    if bs.len() == 0 {
        Seq::empty()
    } else {
        branch_bullets(bs.drop_last(), target_sha) + branch_bullet(bs.last(), target_sha)
    }
}

/// The section naming the branch the user came from, when one was recorded.
pub open spec fn prev_section(prev: Option<PrevSnap>) -> Seq<char> {
    match prev {
        Some(p) => "\nYour previous branch was: "@ + p.head + "\n\n"@
            + "The sha for that commit was: "@ + p.sha + "\n\n"@,
        None => Seq::empty(),
    }
}

/// The fixed closing line of the integration commit message.
pub open spec fn integration_footer() -> Seq<char> {
    "For more information about what we're doing here, check out our docs:\n"@
        + "https://docs.gitbutler.com/features/virtual-branches/integration-branch\n"@
}

/// The whole integration commit message, a function of the applied branches
/// in order, the target, and the recorded previous head.
pub open spec fn integration_message(
    applied: Seq<BranchSnap>,
    target_sha: Oid,
    prev: Option<PrevSnap>,
) -> Seq<char> {
    integration_preamble() + branch_bullets(applied, target_sha) + prev_section(prev)
        + integration_footer()
}

proof fn lemma_claims_lines_step(cs: Seq<ClaimSnap>, k: int)
    requires
        0 <= k < cs.len(),
    ensures
        claims_lines(cs.take(k + 1)) == claims_lines(cs.take(k)) + claim_line(cs[k]),
{
    assert(cs.take(k + 1).drop_last() =~= cs.take(k));
    assert(cs.take(k + 1).last() == cs[k]);
}

proof fn lemma_branch_bullets_step(bs: Seq<BranchSnap>, k: int, target_sha: Oid)
    requires
        0 <= k < bs.len(),
    ensures
        branch_bullets(bs.take(k + 1), target_sha) == branch_bullets(bs.take(k), target_sha)
            + branch_bullet(bs[k], target_sha),
{
    assert(bs.take(k + 1).drop_last() =~= bs.take(k));
    assert(bs.take(k + 1).last() == bs[k]);
}

/// Builds the integration commit message for the applied branches in list
/// order, the target, and the recorded previous head.
pub fn integration_commit_message(
    applied: &Vec<Branch>,
    target_sha: Oid,
    prev: &Option<PreviousHead>,
) -> (r: String)
    ensures
        r@ == integration_message(branches_view(applied@), target_sha, match *prev {
            Some(p) => Some(p@),
            None => None,
        }),
{
    let mut m = String::new();
    m.append("GitButler Integration Commit");
    m.append("\n\n");
    m.append("This is an integration commit for the virtual branches that GitButler is tracking.\n\n");
    m.append("Due to GitButler managing multiple virtual branches, you cannot switch back and\n");
    m.append("forth between git branches and virtual branches easily. \n\n");
    m.append("If you switch to another branch, GitButler will need to be reinitialized.\n");
    m.append("If you commit on this branch, GitButler will throw it away.\n\n");
    m.append("Here are the branches that are currently applied:\n");
    proof {
        assert(m@ =~= integration_preamble());
    }
    let ghost pre = m@;
    let mut i: usize = 0;
    proof {
        assert(m@ =~= pre + branch_bullets(branches_view(applied@).take(0), target_sha));
    }
    while i < applied.len()
        invariant
            0 <= i <= applied@.len(),
            pre == integration_preamble(),
            m@ == pre + branch_bullets(branches_view(applied@).take(i as int), target_sha),
        decreases applied@.len() - i,
    {
        let b = &applied[i];
        let ghost before = m@;
        m.append(" - ");
        m.append(b.name.as_str());
        m.append(" (");
        let rn = b.refname();
        m.append(rn.as_str());
        m.append(")\n");
        if b.head != target_sha {
            m.append("   branch head: ");
            let hx = oid_to_hex(&b.head);
            m.append(hx.as_str());
            m.append("\n");
        }
        let ghost mid = m@;
        proof {
            assert(mid =~= before + (" - "@ + b@.name + " ("@ + hidden_ref_name(b@.name) + ")\n"@
                + (if b@.head != target_sha {
                    "   branch head: "@ + oid_hex(b@.head) + "\n"@
                } else {
                    Seq::<char>::empty()
                })));
            assert(m@ =~= mid + claims_lines(ownership_view(b.ownership).take(0)));
        }
        let mut k: usize = 0;
        while k < b.ownership.claims.len()
            invariant
                0 <= k <= b.ownership.claims@.len(),
                m@ == mid + claims_lines(ownership_view(b.ownership).take(k as int)),
            decreases b.ownership.claims@.len() - k,
        {
            m.append("   - ");
            m.append(b.ownership.claims[k].file_path.as_str());
            m.append("\n");
            proof {
                lemma_claims_lines_step(ownership_view(b.ownership), k as int);
                assert(ownership_view(b.ownership)[k as int] == b.ownership.claims@[k as int]@);
                assert(m@ =~= mid + claims_lines(ownership_view(b.ownership).take(k + 1)));
            }
            k = k + 1;
        }
        proof {
            assert(ownership_view(b.ownership).take(ownership_view(b.ownership).len() as int)
                =~= ownership_view(b.ownership));
            assert(m@ =~= before + branch_bullet(branches_view(applied@)[i as int], target_sha));
            lemma_branch_bullets_step(branches_view(applied@), i as int, target_sha);
            assert(m@ =~= pre + branch_bullets(branches_view(applied@).take(i + 1), target_sha));
        }
        i = i + 1;
    }
    proof {
        assert(branches_view(applied@).take(applied@.len() as int) =~= branches_view(applied@));
    }
    match prev {
        Some(p) => {
            m.append("\nYour previous branch was: ");
            m.append(p.head.as_str());
            m.append("\n\n");
            m.append("The sha for that commit was: ");
            m.append(p.sha.as_str());
            m.append("\n\n");
        },
        None => {},
    }
    m.append("For more information about what we're doing here, check out our docs:\n");
    m.append("https://docs.gitbutler.com/features/virtual-branches/integration-branch\n");
    proof {
        assert(m@ =~= integration_message(branches_view(applied@), target_sha, match *prev {
            Some(p) => Some(p@),
            None => None,
        }));
    }
    m
}

} // verus!
