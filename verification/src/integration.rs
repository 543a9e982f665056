//! The integration engine: computes the workspace tree by merging applied
//! branches onto the target, writes the integration commit on the
//! integration ref, and keeps a hidden ref per branch.

use vstd::prelude::*;
use crate::ids::{BranchId, Oid};
use crate::errors::Error;
use crate::branch::{Branch, BranchSnap, hidden_ref_name};
use crate::store::{Target, branches_view, names_distinct};
use crate::repo::{
    CommitModel, HeadModel, Repo, branch_ref_name, merged_tree, plain_ref_name,
};
use crate::messages::{
    PreviousHead, format_integration_sidecar, integration_commit_message, integration_message,
    oid_hex, oid_to_hex, parse_integration_sidecar, prev_view, sidecar_line, wip_commit_message,
    wip_message, workspace_head_message,
};

verus! {

broadcast use vstd::std_specs::control_flow::spec_from_blanket_identity,
    vstd::map_lib::lemma_submap_of_trans;

/// The name of the integration ref.
pub open spec fn integration_ref() -> Seq<char> {
    "refs/heads/gitbutler/integration"@
}

/// The name of the integration ref, for ref updates and comparisons.
pub fn integration_ref_str() -> (r: &'static str)
    ensures
        r@ == integration_ref(),
{
    "refs/heads/gitbutler/integration"
}

/// The integration ref lives under `refs/` and names a branch.
pub proof fn lemma_integration_ref_plain()
    ensures
        plain_ref_name(integration_ref()),
        branch_ref_name(integration_ref()),
{
    reveal_strlit("refs/heads/gitbutler/integration");
    reveal_strlit("refs/");
    reveal_strlit("refs/heads/");
    assert(integration_ref().subrange(0, 5) =~= "refs/"@);
    assert(integration_ref().subrange(0, 11) =~= "refs/heads/"@);
}

/// A hidden ref lives under `refs/` and is never the integration ref.
pub proof fn lemma_hidden_ref_plain(name: Seq<char>)
    ensures
        plain_ref_name(hidden_ref_name(name)),
        hidden_ref_name(name) != integration_ref(),
{
    reveal_strlit("refs/gitbutler/");
    reveal_strlit("refs/heads/gitbutler/integration");
    reveal_strlit("refs/");
    assert(hidden_ref_name(name).subrange(0, 5) =~= "refs/"@);
    assert(hidden_ref_name(name)[5] == 'g');
    assert(integration_ref()[5] == 'h');
}

/// Two branches with different names keep different hidden refs.
pub proof fn lemma_hidden_ref_injective(a: Seq<char>, b: Seq<char>)
    ensures
        hidden_ref_name(a) == hidden_ref_name(b) ==> a == b,
{
    reveal_strlit("refs/gitbutler/");
    if hidden_ref_name(a) == hidden_ref_name(b) {
        assert(a =~= hidden_ref_name(a).subrange(15, hidden_ref_name(a).len() as int));
        assert(b =~= hidden_ref_name(b).subrange(15, hidden_ref_name(b).len() as int));
    }
}

/// The applied branches of a list, in the list's order.
pub open spec fn applied_of(bs: Seq<BranchSnap>) -> Seq<BranchSnap>
    decreases bs.len(),
{
    if bs.len() == 0 {
        Seq::empty()
    } else {
        let rest = applied_of(bs.drop_last());
        if bs.last().applied {
            rest.push(bs.last())
        } else {
            rest
        }
    }
}

proof fn lemma_applied_of_step(bs: Seq<BranchSnap>, k: int)
    requires
        0 <= k < bs.len(),
    ensures
        applied_of(bs.take(k + 1)) == if bs[k].applied {
            applied_of(bs.take(k)).push(bs[k])
        } else {
            applied_of(bs.take(k))
        },
{
    assert(bs.take(k + 1).drop_last() =~= bs.take(k));
    assert(bs.take(k + 1).last() == bs[k]);
}

/// Every branch's head is a commit the map knows.
pub open spec fn heads_known(commits: Map<Oid, CommitModel>, bs: Seq<BranchSnap>) -> bool {
    forall|i: int| 0 <= i < bs.len() ==> commits.contains_key((#[trigger] bs[i]).head)
}

/// The heads of the branches, in order.
pub open spec fn heads_of(bs: Seq<BranchSnap>) -> Seq<Oid> {
    bs.map_values(|b: BranchSnap| b.head)
}

/// What merging the branches onto `ws` one by one produces, in a repository
/// with the given merge configuration: the final workspace tree, or the
/// first branch whose merge conflicts.
pub open spec fn ws_fold(
    merge_config: int,
    commits: Map<Oid, CommitModel>,
    base: Oid,
    ws: Oid,
    bs: Seq<BranchSnap>,
) -> Result<Oid, BranchId>
    decreases bs.len(),
{
    if bs.len() == 0 {
        Ok(ws)
    } else {
        match merged_tree(merge_config, base, ws, commits[bs[0].head].tree) {
            Some(t) => ws_fold(merge_config, commits, base, t, bs.drop_first()),
            None => Err(bs[0].id),
        }
    }
}

/// Within one merge configuration, the workspace result depends only on the
/// target tree and on the applied branches' heads in order: two commit maps
/// that agree on those heads, and two branch lists whose applied branches
/// agree, fold alike.
pub proof fn lemma_ws_fold_pure(
    merge_config: int,
    c1: Map<Oid, CommitModel>,
    c2: Map<Oid, CommitModel>,
    base: Oid,
    ws: Oid,
    bs1: Seq<BranchSnap>,
    bs2: Seq<BranchSnap>,
)
    requires
        bs1.len() == bs2.len(),
        forall|i: int| 0 <= i < bs1.len() ==> (#[trigger] bs1[i]).head == (#[trigger] bs2[i]).head
            && bs1[i].id == bs2[i].id,
        forall|i: int| 0 <= i < bs1.len() ==> c1.contains_key((#[trigger] bs1[i]).head)
            ==> (c2.contains_key(bs1[i].head) && c2[bs1[i].head] == c1[bs1[i].head]),
        forall|i: int| 0 <= i < bs1.len() ==> c2.contains_key((#[trigger] bs1[i]).head)
            ==> (c1.contains_key(bs1[i].head) && c2[bs1[i].head] == c1[bs1[i].head]),
        heads_known(c1, bs1),
    ensures
        ws_fold(merge_config, c1, base, ws, bs1) == ws_fold(merge_config, c2, base, ws, bs2),
    decreases bs1.len(),
{
    if bs1.len() > 0 {
        assert(c2[bs2[0].head] == c1[bs1[0].head]);
        match merged_tree(merge_config, base, ws, c1[bs1[0].head].tree) {
            Some(t) => {
                lemma_ws_fold_pure(merge_config, c1, c2, base, t, bs1.drop_first(),
                    bs2.drop_first());
            },
            None => {},
        }
    }
}

/// The workspace head is pure in the target and the applied branches in
/// order: two branch lists whose applied branches agree in order on head and
/// id fold to the same workspace result, however their unapplied branches
/// differ.
pub proof fn lemma_workspace_head_pure(
    merge_config: int,
    commits: Map<Oid, CommitModel>,
    base: Oid,
    bs1: Seq<BranchSnap>,
    bs2: Seq<BranchSnap>,
)
    requires
        applied_of(bs1).len() == applied_of(bs2).len(),
        forall|i: int| 0 <= i < applied_of(bs1).len() ==> (#[trigger] applied_of(bs1)[i]).head
            == (#[trigger] applied_of(bs2)[i]).head && applied_of(bs1)[i].id
            == applied_of(bs2)[i].id,
        heads_known(commits, applied_of(bs1)),
    ensures
        ws_fold(merge_config, commits, base, base, applied_of(bs1)) == ws_fold(merge_config,
            commits, base, base, applied_of(bs2)),
{
    lemma_ws_fold_pure(merge_config, commits, commits, base, base, applied_of(bs1), applied_of(
        bs2));
}

/// The applied branches of `branches`, in order, as fresh values.
pub fn filter_applied(branches: &Vec<Branch>) -> (r: Vec<Branch>)
    ensures
        branches_view(r@) == applied_of(branches_view(branches@)),
{
    let mut out: Vec<Branch> = Vec::new();
    let mut i: usize = 0;
    while i < branches.len()
        invariant
            0 <= i <= branches@.len(),
            branches_view(out@) == applied_of(branches_view(branches@).take(i as int)),
        decreases branches@.len() - i,
    {
        let ghost prev = out@;
        if branches[i].applied {
            out.push(branches[i].duplicate());
            proof {
                assert(branches_view(out@) =~= branches_view(prev).push(branches@[i as int]@));
            }
        }
        proof {
            lemma_applied_of_step(branches_view(branches@), i as int);
            assert(branches_view(branches@)[i as int] == branches@[i as int]@);
            if !branches@[i as int].applied {
                assert(branches_view(out@) =~= branches_view(prev));
            }
        }
        i = i + 1;
    }
    proof {
        assert(branches_view(branches@).take(branches@.len() as int) =~= branches_view(
            branches@));
    }
    out
}

/// The heads of the branches, in order, as plain ids.
pub fn collect_heads(branches: &Vec<Branch>) -> (r: Vec<Oid>)
    ensures
        r@ == heads_of(branches_view(branches@)),
{
    let mut out: Vec<Oid> = Vec::new();
    let mut i: usize = 0;
    while i < branches.len()
        invariant
            0 <= i <= branches@.len(),
            out@ == heads_of(branches_view(branches@).take(i as int)),
        decreases branches@.len() - i,
    {
        out.push(branches[i].head);
        proof {
            assert(heads_of(branches_view(branches@).take(i + 1)) =~= heads_of(branches_view(
                branches@).take(i as int)).push(branches@[i as int]@.head));
        }
        i = i + 1;
    }
    proof {
        assert(heads_of(branches_view(branches@).take(branches@.len() as int)) =~= heads_of(
            branches_view(branches@)));
    }
    out
}

/// Computes the workspace head for the branches in list order: the target
/// tree with each applied branch's head tree merged in, committed with the
/// applied heads as parents.  With no applied branch the target itself is the
/// workspace head.  The first conflicting branch stops the computation and
/// nothing is persisted: the repository's refs, head and index are untouched
/// whatever happens.
#[verifier::loop_isolation(false)]
pub fn get_workspace_head(repo: &mut Repo, target: &Target, branches: &Vec<Branch>) -> (r: Result<
    Oid,
    Error,
>)
    ensures
        old(repo)@.commits.submap_of(final(repo)@.commits),
        final(repo)@.merge_config == old(repo)@.merge_config,
        final(repo)@.refs == old(repo)@.refs,
        final(repo)@.head == old(repo)@.head,
        final(repo)@.index_tree == old(repo)@.index_tree,
        r matches Ok(c) ==> {
            let m0 = old(repo)@;
            let applied = applied_of(branches_view(branches@));
            let base = m0.commits[target.sha].tree;
            &&& m0.commits.contains_key(target.sha)
            &&& heads_known(m0.commits, applied)
            &&& ws_fold(m0.merge_config, m0.commits, base, base, applied) matches Ok(wst) && ((
                applied.len() == 0 && c == target.sha && final(repo)@ == old(repo)@) || (
                applied.len() > 0 && final(repo)@.commits.contains_key(c)
                && final(repo)@.commits[c] == (CommitModel {
                tree: wst,
                parents: heads_of(applied),
                message: workspace_head_message(),
                author_name: "GitButler"@,
                author_email: "gitbutler@gitbutler.com"@,
            })))
            // One applied branch with no conflicting work merges trivially:
            // the workspace tree is that branch's own head tree.
            &&& (applied.len() == 1 ==> final(repo)@.commits[c].tree
                == m0.commits[applied[0].head].tree)
        },
        r matches Err(e) ==> (e is GitBackend || e is WorkspaceMergeConflict),
        r matches Err(e) ==> (e is WorkspaceMergeConflict ==> (
            old(repo)@.commits.contains_key(target.sha) && ws_fold(old(repo)@.merge_config,
            old(repo)@.commits, old(repo)@.commits[target.sha].tree,
            old(repo)@.commits[target.sha].tree, applied_of(branches_view(branches@)))
            == Err::<Oid, BranchId>(e->branch))),
{
    let ghost m0 = repo@;
    let ghost applied_snap = applied_of(branches_view(branches@));
    let applied = filter_applied(branches);
    let target_info = repo.find_commit(target.sha)?;
    let base = target_info.tree;
    let mut ws = base;
    let mut i: usize = 0;
    proof {
        assert(applied_snap.skip(0) =~= applied_snap);
    }
    while i < applied.len()
        invariant
            0 <= i <= applied@.len(),
            i == 0 ==> repo@ == m0,
            repo@.merge_config == m0.merge_config,
            repo@.commits == m0.commits,
            repo@.refs == m0.refs,
            repo@.head == m0.head,
            repo@.index_tree == m0.index_tree,
            heads_known(m0.commits, applied_snap.take(i as int)),
            ws_fold(m0.merge_config, m0.commits, base, base, applied_snap) == ws_fold(
                m0.merge_config, m0.commits, base, ws, applied_snap.skip(i as int)),
            i == 0 ==> ws == base,
            i > 0 && applied_snap.len() == 1 ==> ws == m0.commits[applied_snap[0].head].tree,
        decreases applied@.len() - i,
    {
        let b = &applied[i];
        let info = repo.find_commit(b.head)?;
        let ghost ws_before = ws;
        let merged = repo.merge_trees(base, ws, info.tree)?;
        proof {
            assert(applied_snap.skip(i as int)[0] == applied_snap[i as int]);
            assert(applied_snap[i as int] == branches_view(applied@)[i as int]);
            assert(applied_snap.skip(i as int).drop_first() =~= applied_snap.skip(i + 1));
        }
        match merged {
            Some(t) => {
                ws = t;
            },
            None => {
                proof {
                    assert(applied_snap[i as int].id == b.id);
                    assert(ws_fold(m0.merge_config, m0.commits, base, ws, applied_snap.skip(
                        i as int)) == Err::<Oid, BranchId>(b.id));
                }
                return Err(Error::WorkspaceMergeConflict { branch: b.id });
            },
        }
        proof {
            assert(heads_known(m0.commits, applied_snap.take(i + 1)));
        }
        i = i + 1;
    }
    proof {
        assert(applied_snap.take(applied_snap.len() as int) =~= applied_snap);
        assert(applied_snap.skip(applied@.len() as int) =~= Seq::<BranchSnap>::empty());
    }
    if applied.len() == 0 {
        proof {
            assert(applied_snap.len() == 0);
            assert(ws_fold(m0.merge_config, m0.commits, base, base, applied_snap)
                == Ok::<Oid, BranchId>(base));
        }
        return Ok(target.sha);
    }
    let heads = collect_heads(&applied);
    let msg = workspace_head_message_str();
    let c = repo.commit_fixed_identity(None, msg, ws, &heads)?;
    Ok(c)
}

/// The workspace head commit's message.
pub fn workspace_head_message_str() -> (r: &'static str)
    ensures
        r@ == workspace_head_message(),
{
    "Workspace Head"
}

/// What one run of the integration update returns: the new integration
/// commit, the previous-head record the message named, and the sidecar line
/// to write to `.git/integration`, when the head was on a foreign branch.
#[derive(Debug)]
pub struct IntegrationOutcome {
    pub commit: Oid,
    pub prev: Option<PreviousHead>,
    pub sidecar: Option<String>,
}

/// The hidden ref kept for branch `b` is in place: it points at `b.head`
/// when the branch has no work in progress, and otherwise at a WIP commit
/// that carries `b.tree` atop `b.head`.
pub open spec fn hidden_ref_ok(m: crate::repo::RepoModel, b: BranchSnap) -> bool {
    let hr = hidden_ref_name(b.name);
    &&& m.refs.contains_key(hr)
    &&& m.commits.contains_key(b.head)
    &&& (b.tree == m.commits[b.head].tree ==> m.refs[hr] == b.head)
    &&& (b.tree != m.commits[b.head].tree ==> m.commits.contains_key(m.refs[hr])
        && m.commits[m.refs[hr]] == (CommitModel {
        tree: b.tree,
        parents: seq![b.head],
        message: wip_message(b.name),
        author_name: "GitButler"@,
        author_email: "gitbutler@gitbutler.com"@,
    }))
}

/// A branch with no work in progress keeps its hidden ref on its own head:
/// no WIP commit stands in for it.
pub proof fn lemma_empty_wip_keeps_head(m: crate::repo::RepoModel, b: BranchSnap)
    requires
        hidden_ref_ok(m, b),
        b.tree == m.commits[b.head].tree,
    ensures
        m.refs[hidden_ref_name(b.name)] == b.head,
{
}

/// Inserting a record consistent with what the map already holds never
/// changes an existing entry: the map only grows.
pub proof fn lemma_consistent_insert(
    m1: Map<Oid, CommitModel>,
    m2: Map<Oid, CommitModel>,
    k: Oid,
    v: CommitModel,
)
    requires
        m2 == m1.insert(k, v),
        m1.contains_key(k) ==> m1[k] == v,
    ensures
        m1.submap_of(m2),
        forall|x: Oid| m1.contains_key(x) ==> #[trigger] m2[x] == m1[x],
{
}

/// What a completed integration update guarantees: the head sits on the
/// integration ref, which carries a fresh commit whose sole parent is the
/// target and whose tree is the workspace tree; that tree fills the index;
/// the message is the deterministic integration message; every branch's
/// hidden ref is in place; and a sidecar line is produced exactly when a
/// previous head was recorded.
pub open spec fn integration_updated(
    m0: crate::repo::RepoModel,
    m1: crate::repo::RepoModel,
    target_sha: Oid,
    bv: Seq<BranchSnap>,
    workspace_commit: Option<Oid>,
    out: IntegrationOutcome,
) -> bool {
    let applied = applied_of(bv);
    &&& m1.head == (HeadModel::Symbolic { name: integration_ref() })
    &&& m1.refs.contains_key(integration_ref())
    &&& m1.refs[integration_ref()] == out.commit
    &&& m1.commits.contains_key(out.commit)
    &&& m1.commits[out.commit].parents == seq![target_sha]
    &&& m1.commits[out.commit].author_name == "GitButler"@
    &&& m1.commits[out.commit].author_email == "gitbutler@gitbutler.com"@
    &&& m1.commits[out.commit].message == integration_message(applied, target_sha, prev_view(
        out.prev))
    &&& m1.index_tree == Some(m1.commits[out.commit].tree)
    &&& (workspace_commit matches Some(w) ==> m0.commits.contains_key(w)
        && m1.commits[out.commit].tree == m0.commits[w].tree)
    &&& (workspace_commit is None && applied.len() == 0 ==> m0.commits.contains_key(target_sha)
        && m1.commits[out.commit].tree == m0.commits[target_sha].tree)
    &&& (workspace_commit is None && applied.len() > 0 ==> m0.commits.contains_key(target_sha)
        && (ws_fold(m0.merge_config, m0.commits, m0.commits[target_sha].tree,
        m0.commits[target_sha].tree, applied) matches Ok(wst) && m1.commits[out.commit].tree
        == wst))
    &&& (workspace_commit is None && applied.len() == 1 ==> heads_known(m0.commits, applied)
        && m1.commits[out.commit].tree == m0.commits[applied[0].head].tree)
    &&& (forall|i: int| 0 <= i < bv.len() ==> hidden_ref_ok(m1, #[trigger] bv[i]))
    &&& (out.sidecar matches Some(s) ==> (out.prev matches Some(p) && s@ == sidecar_line(p@.head,
        p@.sha)))
}

/// Rebuilds the integration state for the branches in list order: the
/// integration ref is reset to the target and receives a fresh integration
/// commit whose tree is the workspace tree and whose sole parent is the
/// target; the head moves to the integration ref; the index is loaded with
/// the integration tree; and every branch's hidden ref is set to its head,
/// or to a fresh WIP commit when the branch has uncommitted work.
///
/// `prev_sidecar` is the current content of the sidecar file, if any; the
/// returned `sidecar` is the line to write there, when the head was found on
/// a foreign branch.  `workspace_commit` overrides the workspace-head
/// computation when the caller already made one.
#[verifier::loop_isolation(false)]
#[verifier::rlimit(60)]
pub fn update_gitbutler_integration_with_commit(
    repo: &mut Repo,
    target: &Target,
    branches: &Vec<Branch>,
    prev_sidecar: &Option<String>,
    workspace_commit: Option<Oid>,
) -> (r: Result<IntegrationOutcome, Error>)
    requires
        names_distinct(branches_view(branches@)),
    ensures
        old(repo)@.commits.submap_of(final(repo)@.commits),
        r matches Ok(out) ==> integration_updated(old(repo)@, final(repo)@, target.sha,
            branches_view(branches@), workspace_commit, out),
        r matches Ok(out) ==> (old(repo)@.head == (HeadModel::Symbolic {
            name: integration_ref() }) ==> out.sidecar is None),
        old(repo)@.head matches HeadModel::Symbolic { name } ==> (r matches Ok(out) ==> ((name
            != integration_ref() && old(repo)@.refs.contains_key(name)) ==> (out.sidecar
            matches Some(s) && s@ == sidecar_line(name, oid_hex(old(repo)@.refs[name]))))),
        r matches Err(e) ==> (e is GitBackend || e is WorkspaceMergeConflict),
{
    let ghost m0 = repo@;
    let ghost bv = branches_view(branches@);
    proof {
        lemma_integration_ref_plain();
    }
    let iref = integration_ref_str();
    repo.update_reference(iref, target.sha, true, "update target")?;

    // Record where the user was, the first time the head leaves a branch.
    let head = repo.head_info()?;
    let iref_string = String::from_str(iref);
    let mut prev: Option<PreviousHead> = None;
    let mut sidecar: Option<String> = None;
    match head.name {
        Some(n) => {
            if n != iref_string {
                match head.target {
                    Some(t) => {
                        let p = PreviousHead { head: n, sha: oid_to_hex(&t) };
                        sidecar = Some(format_integration_sidecar(&p));
                        prev = Some(p);
                    },
                    None => {},
                }
            } else {
                prev = match prev_sidecar {
                    Some(s) => parse_integration_sidecar(s),
                    None => None,
                };
            }
        },
        None => {},
    }

    repo.set_head(iref)?;

    let ghost m_pre_ws = repo@;
    let ws = match workspace_commit {
        Some(w) => w,
        None => get_workspace_head(repo, target, branches)?,
    };
    let wsinfo = repo.find_commit(ws)?;
    let tws = wsinfo.tree;
    proof {
        if workspace_commit is None {
            assert(m_pre_ws.commits == m0.commits);
            assert(applied_of(bv).len() == 0 ==> ws == target.sha);
        } else {
            assert(repo@.commits == m0.commits);
        }
    }

    let applied = filter_applied(branches);
    let msg = integration_commit_message(&applied, target.sha, &prev);
    let mut int_parents: Vec<Oid> = Vec::new();
    int_parents.push(target.sha);
    let c = repo.commit_fixed_identity(Some(iref), msg.as_str(), tws, &int_parents)?;
    let ghost m_int = CommitModel {
        tree: tws,
        parents: seq![target.sha],
        message: msg@,
        author_name: "GitButler"@,
        author_email: "gitbutler@gitbutler.com"@,
    };
    proof {
        assert(int_parents@ =~= seq![target.sha]);
        assert(repo@.commits[c] =~= m_int);
        assert(m0.commits.submap_of(repo@.commits));
    }

    repo.set_index_tree(tws)?;

    let ghost m_star = repo@;
    let mut j: usize = 0;
    while j < branches.len()
        invariant
            0 <= j <= branches@.len(),
            repo@.head == m_star.head,
            repo@.index_tree == m_star.index_tree,
            repo@.refs.contains_key(integration_ref()),
            repo@.refs[integration_ref()] == c,
            repo@.commits.contains_key(c),
            repo@.commits[c] == m_int,
            m_star.commits.submap_of(repo@.commits),
            forall|x: Oid| m_star.commits.contains_key(x) ==> #[trigger] repo@.commits[x]
                == m_star.commits[x],
            forall|k: int| 0 <= k < j ==> hidden_ref_ok(repo@, #[trigger] bv[k]),
        decreases branches@.len() - j,
    {
        let b = &branches[j];
        let ghost m_iter = repo@;
        let hi = repo.find_commit(b.head)?;
        let tgt: Oid;
        if b.tree == hi.tree {
            tgt = b.head;
        } else {
            let wmsg = wip_commit_message(&b.name);
            let mut wparents: Vec<Oid> = Vec::new();
            wparents.push(b.head);
            let cw = repo.commit_fixed_identity(None, wmsg.as_str(), b.tree, &wparents)?;
            proof {
                assert(wparents@ =~= seq![b.head]);
                lemma_consistent_insert(m_iter.commits, repo@.commits, cw, CommitModel {
                    tree: b@.tree,
                    parents: seq![b@.head],
                    message: wip_message(b@.name),
                    author_name: "GitButler"@,
                    author_email: "gitbutler@gitbutler.com"@,
                });
            }
            tgt = cw;
        }
        let hr = b.refname();
        proof {
            lemma_hidden_ref_plain(b@.name);
        }
        repo.update_reference(hr.as_str(), tgt, true, "update virtual branch")?;
        proof {
            assert(bv[j as int] == b@);
            assert forall|k: int| 0 <= k < j + 1 implies hidden_ref_ok(repo@, #[trigger] bv[k]) by {
                lemma_hidden_ref_plain(bv[k].name);
                if k < j as int {
                    assert(hidden_ref_ok(m_iter, bv[k]));
                    assert(bv[k].name != bv[j as int].name);
                    lemma_hidden_ref_injective(bv[k].name, bv[j as int].name);
                } else {
                    assert(repo@.refs[hidden_ref_name(b@.name)] == tgt);
                }
            }
            lemma_hidden_ref_plain(bv[j as int].name);
            lemma_hidden_ref_injective(integration_ref(), bv[j as int].name);
        }
        j = j + 1;
    }
    proof {
        assert(m0.commits.submap_of(repo@.commits));
    }
    Ok(IntegrationOutcome { commit: c, prev, sidecar })
}

/// Rebuilds the integration state, computing the workspace head itself.
pub fn update_gitbutler_integration(
    repo: &mut Repo,
    target: &Target,
    branches: &Vec<Branch>,
    prev_sidecar: &Option<String>,
) -> (r: Result<IntegrationOutcome, Error>)
    requires
        names_distinct(branches_view(branches@)),
    ensures
        old(repo)@.commits.submap_of(final(repo)@.commits),
        r matches Ok(out) ==> integration_updated(old(repo)@, final(repo)@, target.sha,
            branches_view(branches@), None, out),
        r matches Ok(out) ==> (old(repo)@.head == (HeadModel::Symbolic {
            name: integration_ref() }) ==> out.sidecar is None),
        r matches Err(e) ==> (e is GitBackend || e is WorkspaceMergeConflict),
{
    update_gitbutler_integration_with_commit(repo, target, branches, prev_sidecar, None)
}


} // verus!
