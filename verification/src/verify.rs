//! The head verifier and its repair: every mutating verb first checks that
//! the head sits on the integration ref and that no foreign tool committed
//! on it; foreign commits are rebased onto a fresh, applied virtual branch
//! in their original order, so no work of the user is ever lost.

use vstd::prelude::*;
use crate::ids::{BranchId, Oid};
use crate::errors::Error;
use crate::branch::BranchCreateRequest;
use crate::store::{DocSnap, VirtualBranches, has_branch};
use crate::repo::{CommitModel, HeadModel, Repo, RepoModel, reachable};
use crate::integration::{integration_ref, integration_ref_str};

verus! {

broadcast use vstd::std_specs::control_flow::spec_from_blanket_identity,
    vstd::map_lib::lemma_submap_of_trans;

/// Where the subject line of a commit message ends: at the first newline, or
/// at the end when there is none.
pub open spec fn subject_len(s: Seq<char>) -> int
    decreases s.len(),
{
    if s.len() == 0 {
        0
    } else if s[0] == '\n' {
        0
    } else {
        1 + subject_len(s.drop_first())
    }
}

/// The subject line of a commit message: everything before the first newline.
pub open spec fn subject_of(s: Seq<char>) -> Seq<char> {
    s.take(subject_len(s))
}

/// The subject line ends exactly at the first newline, or at the end when no
/// newline occurs.
proof fn lemma_subject_len_at(s: Seq<char>, i: int)
    requires
        0 <= i <= s.len(),
        forall|j: int| 0 <= j < i ==> s[j] != '\n',
        i == s.len() || s[i] == '\n',
    ensures
        subject_len(s) == i,
    decreases i,
{
    if s.len() == 0 {
    } else if i == 0 {
    } else {
        assert(s[0] != '\n');
        let rest = s.drop_first();
        assert forall|j: int| 0 <= j < i - 1 implies rest[j] != '\n' by {
            assert(rest[j] == s[j + 1]);
        }
        if i < s.len() {
            assert(rest[i - 1] == s[i]);
        }
        lemma_subject_len_at(rest, i - 1);
    }
}

/// The longest prefix of `s` without a newline: the subject line of a commit
/// message.
pub fn message_subject(s: &String) -> (r: String)
    ensures
        r@ == subject_of(s@),
        forall|j: int| 0 <= j < r@.len() ==> s@[j] != '\n',
{
    let n = s.as_str().unicode_len();
    let mut i: usize = 0;
    while i < n
        invariant
            n == s@.len(),
            0 <= i <= n,
            forall|j: int| 0 <= j < i ==> s@[j] != '\n',
        decreases n - i,
    {
        if s.as_str().get_char(i) == '\n' {
            proof {
                lemma_subject_len_at(s@, i as int);
            }
            let sub = s.as_str().substring_char(0, i);
            return String::from_str(sub);
        }
        i = i + 1;
    }
    proof {
        lemma_subject_len_at(s@, s@.len() as int);
        assert(s@.take(s@.len() as int) =~= s@);
    }
    s.clone()
}

/// The commit the head resolves to, when the model knows it.
pub open spec fn head_resolves_to(m: RepoModel, h: Oid) -> bool {
    match m.head {
        HeadModel::Detached { at } => h == at,
        HeadModel::Symbolic { name } => m.refs.contains_key(name) && m.refs[name] == h,
    }
}

/// `x` sits above the target on the head's history: it is reachable from
/// `h` but not from the target.
pub open spec fn above_target(
    commits: Map<Oid, CommitModel>,
    h: Oid,
    target_sha: Oid,
    x: Oid,
) -> bool {
    commits.contains_key(x) && reachable(commits, h, x) && !reachable(commits, target_sha, x)
}

/// At most one commit sits above the target on the head's history: the
/// engine's own integration commit, with nothing foreign on top of it.
pub open spec fn at_most_one_above_head(m: RepoModel, target_sha: Oid) -> bool {
    forall|h: Oid, x: Oid, y: Oid|
        (head_resolves_to(m, h) && #[trigger] above_target(m.commits, h, target_sha, x)
            && #[trigger] above_target(m.commits, h, target_sha, y)) ==> x == y
}

/// Nothing at all sits above the target on the head's history: even the
/// engine's own integration commit is missing.
pub open spec fn nothing_above_head(m: RepoModel, target_sha: Oid) -> bool {
    forall|h: Oid, x: Oid|
        head_resolves_to(m, h) ==> !#[trigger] above_target(m.commits, h, target_sha, x)
}

/// The repository is in the canonical integration shape: the head sits on
/// the integration ref, which carries a commit whose sole parent is the
/// target.  The verifier leaves such a repository untouched.
pub open spec fn integration_head_clean(m: RepoModel, target_sha: Oid) -> bool {
    &&& m.head == (HeadModel::Symbolic { name: integration_ref() })
    &&& m.refs.contains_key(integration_ref())
    &&& m.commits.contains_key(m.refs[integration_ref()])
    &&& m.commits[m.refs[integration_ref()]].parents =~= seq![target_sha]
}

/// Checks that the head names the integration ref: a detached head and a
/// head on any other branch block every mutation.  Nothing is changed.
pub fn verify_head_is_set(repo: &Repo) -> (r: Result<(), Error>)
    ensures
        r is Ok ==> repo@.head == (HeadModel::Symbolic { name: integration_ref() }),
        repo@.head matches HeadModel::Symbolic { name } ==> ((repo@.refs.contains_key(name)
            && name == integration_ref()) ==> (r matches Err(e) ==> e is GitBackend)),
        r matches Err(e) ==> (e is DetachedHead ==> repo@.head is Detached),
        r matches Err(e) ==> (e matches Error::InvalidHead { name } ==> (repo@.head
            matches HeadModel::Symbolic { name: hn } && name@ == hn && hn != integration_ref())),
        r matches Err(e) ==> (e is DetachedHead || e is InvalidHead || e is GitBackend),
{
    let head = repo.head_info()?;
    match head.name {
        None => Err(Error::DetachedHead),
        Some(n) => {
            let iref_string = String::from_str(integration_ref_str());
            if n == iref_string {
                Ok(())
            } else {
                Err(Error::InvalidHead { name: n })
            }
        },
    }
}

/// What a completed repair left behind, witnessed by the walked commits
/// (`walk`: the foreign commits newest first, then the engine's own
/// integration commit last) and by the commits they were rewritten to
/// (`rebased`, oldest first): the head's ref was soft-reset to the walked
/// integration commit; one fresh applied branch was added, named after the
/// newest foreign commit's subject line; and each foreign commit was
/// re-created in its original order with its author, message and tree kept,
/// parents chained up from the target, the branch's head and tree following.
pub open spec fn repair_evidence(
    m0: RepoModel,
    m1: RepoModel,
    d0: DocSnap,
    d1: DocSnap,
    new_id: BranchId,
    now: u64,
    target_sha: Oid,
    walk: Seq<Oid>,
    rebased: Seq<Oid>,
) -> bool {
    let nb = d1.branches.last();
    &&& walk.len() >= 2
    &&& rebased.len() == walk.len() - 1
    &&& (forall|k: int| 0 <= k < walk.len() ==> m0.commits.contains_key(#[trigger] walk[k]))
    &&& (m0.head matches HeadModel::Symbolic { name } ==> m1.refs == m0.refs.insert(name,
        walk.last()) && m1.head == m0.head)
    &&& (m0.head is Detached ==> m1.head == (HeadModel::Detached { at: walk.last() }) && m1.refs
        == m0.refs)
    &&& m1.index_tree == m0.index_tree
    &&& m1.merge_config == m0.merge_config
    &&& m0.commits.submap_of(m1.commits)
    &&& d1.default_target == d0.default_target
    &&& d1.branches.len() == d0.branches.len() + 1
    &&& (forall|k: int| 0 <= k < d0.branches.len() ==> d1.branches[k] == #[trigger] d0.branches[k])
    &&& nb.id == new_id
    &&& nb.applied
    &&& nb.updated_ts == now as int
    &&& nb.name == subject_of(m0.commits[walk[0]].message)
    &&& (forall|k: int|
        #![trigger rebased[k]]
        0 <= k < rebased.len() ==> {
            let orig = m0.commits[walk[walk.len() - 2 - k]];
            &&& m1.commits.contains_key(rebased[k])
            &&& m1.commits[rebased[k]] == (CommitModel {
                tree: orig.tree,
                parents: seq![
                    if k == 0 {
                        target_sha
                    } else {
                        rebased[k - 1]
                    },
                ],
                message: orig.message,
                author_name: orig.author_name,
                author_email: orig.author_email,
            })
        })
    &&& nb.head == rebased.last()
    &&& nb.tree == m1.commits[rebased.last()].tree
}

/// Some walked commits and their rewrites witness a completed repair.
pub open spec fn repaired(
    m0: RepoModel,
    m1: RepoModel,
    d0: DocSnap,
    d1: DocSnap,
    new_id: BranchId,
    now: u64,
    target_sha: Oid,
) -> bool {
    exists|walk: Seq<Oid>, rebased: Seq<Oid>| #[trigger] repair_evidence(m0, m1, d0, d1, new_id,
        now, target_sha, walk, rebased)
}

/// Checks that no foreign commits sit on the integration ref above the
/// engine's own integration commit; when some do, the head is soft-reset
/// back to the integration commit and the foreign commits are rebased, in
/// their original order, onto a fresh applied branch named after the newest
/// one's subject line.  In the canonical clean state nothing changes.
#[verifier::loop_isolation(false)]
#[verifier::rlimit(100)]
pub fn verify_head_is_clean(
    repo: &mut Repo,
    doc: &mut VirtualBranches,
    new_id: BranchId,
    now: u64,
) -> (r: Result<(), Error>)
    requires
        old(doc).wf(),
        !has_branch(old(doc)@.branches, new_id),
    ensures
        old(repo)@.commits.submap_of(final(repo)@.commits),
        final(doc).wf(),
        final(doc)@.default_target == old(doc)@.default_target,
        r matches Err(e) ==> (e is TargetMissing <==> old(doc)@.default_target is None),
        old(doc)@.default_target is None ==> r is Err,
        r matches Err(e) ==> (e is TargetMissing || e is NoIntegrationCommit
            || e is GitBackend),
        r matches Err(e) ==> ((e is TargetMissing || e is NoIntegrationCommit) ==> final(repo)@
            == old(repo)@ && final(doc)@ == old(doc)@),
        r matches Err(e) ==> (e is NoIntegrationCommit ==> (old(doc)@.default_target
            matches Some(t) && nothing_above_head(old(repo)@, t.sha))),
        old(doc)@.default_target matches Some(t) ==> (((exists|h: Oid| head_resolves_to(
            old(repo)@, h)) && nothing_above_head(old(repo)@, t.sha)) ==> (r matches Err(e) && (
            e is NoIntegrationCommit || e is GitBackend))),
        old(doc)@.default_target matches Some(t) ==> (integration_head_clean(old(repo)@, t.sha)
            ==> (r is Err ==> r->Err_0 is GitBackend)),
        old(doc)@.default_target matches Some(t) ==> ((r is Ok && integration_head_clean(
            old(repo)@, t.sha)) ==> (final(repo)@ == old(repo)@ && final(doc)@ == old(doc)@)),
        r is Ok ==> (old(doc)@.default_target matches Some(t) && ((final(repo)@ == old(repo)@
            && final(doc)@ == old(doc)@ && at_most_one_above_head(old(repo)@, t.sha)) || repaired(
            old(repo)@, final(repo)@, old(doc)@, final(doc)@, new_id, now, t.sha))),
        r is Ok ==> (final(doc)@.branches == old(doc)@.branches || (final(doc)@.branches.len()
            == old(doc)@.branches.len() + 1 && ({
            let nb = final(doc)@.branches.last();
            &&& nb.id == new_id
            &&& nb.applied
            &&& final(repo)@.commits.contains_key(nb.head)
            &&& final(repo)@.commits[nb.head].tree == nb.tree
        }))),
{
    let ghost m0 = repo@;
    let ghost d0 = doc@;
    let tsha = match doc.get_default_target() {
        Ok(t) => t.sha,
        Err(e) => {
            return Err(e);
        },
    };
    let hinfo = repo.head_info()?;
    let h = match hinfo.target {
        Some(h) => h,
        None => {
            let mut m = String::new();
            m.append("failed to resolve the head to a commit");
            return Err(Error::GitBackend { message: m });
        },
    };
    let extras = repo.log_until(h, tsha)?;
    proof {
        assert forall|h0: Oid| head_resolves_to(m0, h0) implies h0 == h by {
            match m0.head {
                HeadModel::Detached { at } => {},
                HeadModel::Symbolic { name } => {},
            }
        }
        if extras@.len() > 0 && (exists|h0: Oid| head_resolves_to(m0, h0)) {
            let h0 = choose|h0: Oid| head_resolves_to(m0, h0);
            assert(extras@.contains(extras@[0]));
            assert(above_target(m0.commits, h0, tsha, extras@[0]));
        }
    }
    if extras.len() == 0 {
        proof {
            assert forall|h0: Oid, x: Oid| head_resolves_to(m0, h0)
                implies !above_target(m0.commits, h0, tsha, x) by {
                if above_target(m0.commits, h0, tsha, x) {
                    assert(extras@.contains(x));
                }
            }
        }
        return Err(Error::NoIntegrationCommit);
    }
    if extras.len() == 1 {
        proof {
            assert forall|h0: Oid, x: Oid, y: Oid| (head_resolves_to(m0, h0) && above_target(
                m0.commits, h0, tsha, x) && above_target(m0.commits, h0, tsha, y))
                implies x == y by {
                assert(extras@.contains(x));
                assert(extras@.contains(y));
                let ix = choose|i: int| 0 <= i < extras@.len() && extras@[i] == x;
                let iy = choose|i: int| 0 <= i < extras@.len() && extras@[i] == y;
                assert(extras@[0] == x && extras@[0] == y);
            }
            if integration_head_clean(m0, tsha) {
                assert(final(doc)@ =~= d0);
            }
        }
        return Ok(());
    }

    // Foreign commits were made on the integration ref: reattach them.
    let integration_commit = extras[extras.len() - 1];
    repo.reset_soft(integration_commit)?;
    let ghost m_reset = repo@;
    let newest = repo.find_commit(extras[0])?;
    let name = message_subject(&newest.message);
    let ghost nameg = name@;
    let tinfo = repo.find_commit(tsha)?;
    let req = BranchCreateRequest { name: Some(name), ownership: None, order: None };
    doc.create_virtual_branch(req, new_id, tinfo.tree, now)?;
    proof {
        assert(doc@.branches.last().id == new_id);
        assert(has_branch(doc@.branches, new_id)) by {
            assert(doc@.branches[doc@.branches.len() - 1].id == new_id);
        }
    }
    doc.set_applied(new_id, true, now)?;
    let ghost d1 = doc@;
    proof {
        assert(crate::store::idx_of(d1.branches, new_id) == d1.branches.len() - 1) by {
            let k = crate::store::idx_of(d1.branches, new_id);
            assert(d1.branches[d1.branches.len() - 1].id == new_id);
            assert(0 <= k < d1.branches.len() && d1.branches[k].id == new_id);
            if k < d1.branches.len() - 1 {
                assert(d0.branches[k].id == new_id);
                assert(has_branch(d0.branches, new_id));
            }
        }
    }

    let idx = match doc.find_branch(new_id) {
        Some(i) => i,
        None => {
            return Err(Error::BranchNotFound { id: new_id });
        },
    };
    let mut cur_head = tsha;
    let ghost mut rebased: Seq<Oid> = Seq::empty();
    let mut j: usize = extras.len() - 1;
    while j > 0
        invariant
            0 <= j <= extras@.len() - 1,
            idx as int == doc@.branches.len() - 1,
            doc@.branches.len() == d0.branches.len() + 1,
            doc@.default_target == d0.default_target,
            forall|k: int| 0 <= k < d0.branches.len() ==> doc@.branches[k] == d0.branches[k],
            doc.wf(),
            doc@.branches.last().id == new_id,
            doc@.branches.last().applied,
            doc@.branches.last().updated_ts == now as int,
            doc@.branches.last().name == nameg,
            m0.commits.submap_of(repo@.commits),
            forall|x: Oid| m0.commits.contains_key(x) ==> #[trigger] repo@.commits[x]
                == m0.commits[x],
            repo@.refs == m_reset.refs,
            repo@.head == m_reset.head,
            repo@.index_tree == m0.index_tree,
            repo@.merge_config == m0.merge_config,
            repo@.commits.contains_key(cur_head),
            repo@.commits[cur_head].tree == doc@.branches.last().tree,
            cur_head == doc@.branches.last().head,
            rebased.len() == extras@.len() - 1 - j,
            cur_head == (if rebased.len() == 0 {
                tsha
            } else {
                rebased.last()
            }),
            forall|k: int|
                #![trigger rebased[k]]
                0 <= k < rebased.len() ==> {
                    let orig = m0.commits[extras@[extras@.len() - 2 - k]];
                    &&& repo@.commits.contains_key(rebased[k])
                    &&& repo@.commits[rebased[k]] == (CommitModel {
                        tree: orig.tree,
                        parents: seq![
                            if k == 0 {
                                tsha
                            } else {
                                rebased[k - 1]
                            },
                        ],
                        message: orig.message,
                        author_name: orig.author_name,
                        author_email: orig.author_email,
                    })
                },
        decreases j,
    {
        j = j - 1;
        let orig = extras[j];
        let ghost m_iter = repo@;
        let info = repo.find_commit(orig)?;
        let rc = repo.commit_rebased(orig, cur_head)?;
        proof {
            crate::integration::lemma_consistent_insert(m_iter.commits, repo@.commits, rc,
                crate::repo::CommitModel {
                    tree: m_iter.commits[orig].tree,
                    parents: seq![cur_head],
                    message: m_iter.commits[orig].message,
                    author_name: m_iter.commits[orig].author_name,
                    author_email: m_iter.commits[orig].author_email,
                });
            rebased = rebased.push(rc);
            assert(extras@[extras@.len() - 2 - (rebased.len() - 1)] == extras@[j as int]);
        }
        cur_head = rc;
        let ghost before = doc@.branches;
        let b = &mut doc.branches[idx];
        b.head = rc;
        b.tree = info.tree;
        b.updated_ts = now;
        proof {
            assert(doc@.branches =~= before.update(idx as int, doc@.branches.last()));
            assert forall|k: int| 0 <= k < doc.branches@.len()
                implies (#[trigger] doc.branches@[k]).wf() by {
                assert(old(doc).branches@.len() >= 0);
            }
        }
    }
    proof {
        assert(repair_evidence(m0, repo@, d0, doc@, new_id, now, tsha, extras@, rebased)) by {
            assert(rebased.len() == extras@.len() - 1);
            assert(m0.commits[extras@[0]].message == newest.message@);
        }
    }
    Ok(())
}

/// Runs both head checks, repairing foreign commits when needed: success
/// means the head sat on the integration ref, and either the repository was
/// already clean or the foreign commits were reattached to a fresh branch.
/// The head checks change nothing when they fail.
pub fn verify_branch(
    repo: &mut Repo,
    doc: &mut VirtualBranches,
    new_id: BranchId,
    now: u64,
) -> (r: Result<(), Error>)
    requires
        old(doc).wf(),
        !has_branch(old(doc)@.branches, new_id),
    ensures
        old(repo)@.commits.submap_of(final(repo)@.commits),
        final(doc).wf(),
        final(doc)@.default_target == old(doc)@.default_target,
        r is Ok ==> old(repo)@.head == (HeadModel::Symbolic { name: integration_ref() }),
        r matches Err(e) ==> (e is DetachedHead || e is InvalidHead || e is TargetMissing
            || e is NoIntegrationCommit || e is GitBackend),
        r matches Err(e) ==> (e is DetachedHead ==> old(repo)@.head is Detached),
        r matches Err(e) ==> (e matches Error::InvalidHead { name } ==> (old(repo)@.head
            matches HeadModel::Symbolic { name: hn } && name@ == hn && hn != integration_ref())),
        r matches Err(e) ==> ((e is DetachedHead || e is InvalidHead || e is TargetMissing
            || e is NoIntegrationCommit) ==> final(repo)@ == old(repo)@ && final(doc)@
            == old(doc)@),
        r matches Err(e) ==> (e is TargetMissing ==> old(doc)@.default_target is None),
        r matches Err(e) ==> (e is NoIntegrationCommit ==> (old(doc)@.default_target
            matches Some(t) && nothing_above_head(old(repo)@, t.sha))),
        r is Ok ==> (old(doc)@.default_target matches Some(t) && ((final(repo)@ == old(repo)@
            && final(doc)@ == old(doc)@ && at_most_one_above_head(old(repo)@, t.sha)) || repaired(
            old(repo)@, final(repo)@, old(doc)@, final(doc)@, new_id, now, t.sha))),
        r is Ok ==> (final(doc)@.branches == old(doc)@.branches || (final(doc)@.branches.len()
            == old(doc)@.branches.len() + 1 && ({
            let nb = final(doc)@.branches.last();
            &&& nb.id == new_id
            &&& nb.applied
            &&& final(repo)@.commits.contains_key(nb.head)
            &&& final(repo)@.commits[nb.head].tree == nb.tree
        }))),
        old(doc)@.default_target matches Some(t) ==> ((r is Ok && integration_head_clean(
            old(repo)@, t.sha)) ==> (final(repo)@ == old(repo)@ && final(doc)@ == old(doc)@)),
{
    match verify_head_is_set(repo) {
        Ok(()) => {},
        Err(e) => {
            proof {
                assert(final(doc)@ =~= old(doc)@);
            }
            return Err(e);
        },
    }
    verify_head_is_clean(repo, doc, new_id, now)
}

} // verus!
