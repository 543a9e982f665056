//! Tests of the engine against real repositories: integration commits,
//! hidden refs, workspace merges, and head repair.

use gitbutler_core::ids::{BranchId, Oid};
use gitbutler_core::errors::Error;
use gitbutler_core::branch::BranchCreateRequest;
use gitbutler_core::store::{Target, VirtualBranches};
use gitbutler_core::repo::Repo;
use gitbutler_core::integration::{
    get_workspace_head, update_gitbutler_integration, update_gitbutler_integration_with_commit,
};
use gitbutler_core::controller::{apply_branch, create_virtual_branch, delete_virtual_branch, unapply_branch};
use gitbutler_core::verify::verify_branch;
use gitbutler_core::messages::oid_to_hex;

const INTEGRATION_REF: &str = "refs/heads/gitbutler/integration";

fn lib_oid(o: git2::Oid) -> Oid {
    let b = o.as_bytes();
    let mut w0 = [0u8; 8];
    let mut w1 = [0u8; 8];
    let mut w2 = [0u8; 4];
    w0.copy_from_slice(&b[..8]);
    w1.copy_from_slice(&b[8..16]);
    w2.copy_from_slice(&b[16..]);
    Oid { w0: u64::from_be_bytes(w0), w1: u64::from_be_bytes(w1), w2: u32::from_be_bytes(w2) }
}

fn git_oid(o: Oid) -> git2::Oid {
    let mut b = [0u8; 20];
    b[..8].copy_from_slice(&o.w0.to_be_bytes());
    b[8..16].copy_from_slice(&o.w1.to_be_bytes());
    b[16..].copy_from_slice(&o.w2.to_be_bytes());
    git2::Oid::from_bytes(&b).unwrap()
}

fn commit_files(
    repo: &git2::Repository,
    update_ref: Option<&str>,
    parents: &[&git2::Commit],
    message: &str,
    files: &[(&str, &str)],
) -> git2::Oid {
    let mut tb = repo.treebuilder(None).unwrap();
    for (path, content) in files {
        let blob = repo.blob(content.as_bytes()).unwrap();
        tb.insert(path, blob, 0o100644).unwrap();
    }
    let tid = tb.write().unwrap();
    let tree = repo.find_tree(tid).unwrap();
    let sig = git2::Signature::now("Someone", "someone@example.com").unwrap();
    repo.commit(update_ref, &sig, &sig, message, &tree, parents).unwrap()
}

/// A fresh repository with one commit on a `base` branch, the head on that
/// branch, and a document whose target is that commit.
fn setup(name: &str) -> (git2::Repository, Repo, VirtualBranches, Oid) {
    let stamp = std::time::SystemTime::now()
        .duration_since(std::time::UNIX_EPOCH)
        .unwrap()
        .as_nanos();
    let path = format!("/tmp/testrepo_{}_{}", name, stamp);
    let g = git2::Repository::init(&path).unwrap();
    let c0 = commit_files(&g, Some("refs/heads/base"), &[], "base commit", &[("base.txt", "base\n")]);
    g.set_head("refs/heads/base").unwrap();
    let r = Repo::open(&path).unwrap();
    let mut doc = VirtualBranches::new();
    doc.set_default_target(Target {
        remote_ref: String::from("refs/remotes/origin/base"),
        sha: lib_oid(c0),
        push_remote: None,
    });
    (g, r, doc, lib_oid(c0))
}

fn new_branch(doc: &mut VirtualBranches, repo: &Repo, name: &str, lo: u64) -> BranchId {
    let id = BranchId { hi: 0, lo };
    let req = BranchCreateRequest { name: Some(String::from(name)), ownership: None, order: None };
    create_virtual_branch(repo, doc, req, id, lo).unwrap();
    id
}

#[test]
fn workspace_head_of_empty_workspace_is_target() {
    let (_g, mut r, doc, target_sha) = setup("empty_ws");
    let target = doc.get_default_target().unwrap();
    let ws = get_workspace_head(&mut r, target, &doc.list_branches()).unwrap();
    assert_eq!(ws, target_sha);
}

#[test]
fn integration_commit_on_empty_workspace() {
    let (g, mut r, mut doc, target_sha) = setup("empty_integration");
    let t = doc.get_default_target().unwrap().duplicate();
    let out = update_gitbutler_integration(&mut r, &t, &doc.list_branches(), &None).unwrap();
    // The head was on a foreign branch, so a sidecar line is produced.
    let sidecar = out.sidecar.unwrap();
    assert_eq!(sidecar, format!("refs/heads/base:{}", oid_to_hex(&target_sha)));
    // The integration ref carries a commit whose sole parent is the target
    // and whose tree is the target's tree.
    let iref = g.find_reference(INTEGRATION_REF).unwrap();
    let ic = iref.peel_to_commit().unwrap();
    assert_eq!(lib_oid(ic.id()), out.commit);
    assert_eq!(ic.parent_count(), 1);
    assert_eq!(ic.parent_id(0).unwrap(), git_oid(target_sha));
    let base = g.find_commit(git_oid(target_sha)).unwrap();
    assert_eq!(ic.tree_id(), base.tree_id());
    assert!(ic.message().unwrap().starts_with("GitButler Integration Commit"));
    // The head now sits on the integration ref.
    assert_eq!(g.head().unwrap().name().unwrap(), INTEGRATION_REF);
    assert!(doc.branches.is_empty());
}

#[test]
fn hidden_ref_follows_branch_state() {
    let (g, mut r, mut doc, target_sha) = setup("hidden_refs");
    let id = new_branch(&mut doc, &r, "b1", 1);
    apply_branch(&mut r, &mut doc, id, 2).unwrap();
    let t = doc.get_default_target().unwrap().duplicate();

    // No work in progress: the hidden ref points at the branch head itself.
    let first = update_gitbutler_integration(&mut r, &t, &doc.list_branches(), &None).unwrap();
    assert!(first.sidecar.is_some());
    let hr = g.find_reference("refs/gitbutler/b1").unwrap();
    assert_eq!(lib_oid(hr.target().unwrap()), target_sha);

    // Uncommitted work: the hidden ref moves to a WIP commit carrying the
    // branch tree atop the branch head.
    let wip = commit_files(&g, None, &[], "scratch", &[("a.txt", "1\n")]);
    let wip_tree = g.find_commit(wip).unwrap().tree_id();
    doc.branches[0].tree = lib_oid(wip_tree);
    // The head already sits on the integration ref: the sidecar, which
    // records where the user came from, is not written again.
    let second = update_gitbutler_integration(&mut r, &t, &doc.list_branches(), &None).unwrap();
    assert!(second.sidecar.is_none());
    let hr2 = g.find_reference("refs/gitbutler/b1").unwrap();
    let wc = hr2.peel_to_commit().unwrap();
    assert_eq!(wc.tree_id(), wip_tree);
    assert_eq!(wc.parent_count(), 1);
    assert_eq!(wc.parent_id(0).unwrap(), git_oid(target_sha));
    assert!(wc.message().unwrap().starts_with("GitButler WIP Commit"));
}

#[test]
fn delete_branch_removes_hidden_ref() {
    let (g, mut r, mut doc, _target_sha) = setup("delete_ref");
    let id = new_branch(&mut doc, &r, "gone", 1);
    let t = doc.get_default_target().unwrap().duplicate();
    update_gitbutler_integration(&mut r, &t, &doc.list_branches(), &None).unwrap();
    assert!(g.find_reference("refs/gitbutler/gone").is_ok());
    delete_virtual_branch(&mut r, &mut doc, id).unwrap();
    assert!(doc.branches.is_empty());
    assert!(g.find_reference("refs/gitbutler/gone").is_err());
}

#[test]
fn disjoint_branches_merge_union() {
    let (g, mut r, mut doc, target_sha) = setup("disjoint");
    let base = g.find_commit(git_oid(target_sha)).unwrap();
    let a = commit_files(&g, None, &[&base], "adds a", &[("base.txt", "base\n"), ("a.txt", "1\n")]);
    let b = commit_files(&g, None, &[&base], "adds b", &[("base.txt", "base\n"), ("b.txt", "2\n")]);
    let ida = new_branch(&mut doc, &r, "a", 1);
    let idb = new_branch(&mut doc, &r, "b", 2);
    doc.branches[0].head = lib_oid(a);
    doc.branches[0].tree = lib_oid(g.find_commit(a).unwrap().tree_id());
    doc.branches[1].head = lib_oid(b);
    doc.branches[1].tree = lib_oid(g.find_commit(b).unwrap().tree_id());
    apply_branch(&mut r, &mut doc, ida, 3).unwrap();
    apply_branch(&mut r, &mut doc, idb, 4).unwrap();
    let t = doc.get_default_target().unwrap();
    let ws = get_workspace_head(&mut r, t, &doc.list_branches()).unwrap();
    let wsc = g.find_commit(git_oid(ws)).unwrap();
    // The workspace commit's parents are the applied heads, in order, and
    // its tree holds the union of both changes.
    assert_eq!(wsc.parent_count(), 2);
    assert_eq!(wsc.parent_id(0).unwrap(), a);
    assert_eq!(wsc.parent_id(1).unwrap(), b);
    assert_eq!(wsc.message().unwrap(), "Workspace Head");
    let tree = wsc.tree().unwrap();
    assert!(tree.get_name("a.txt").is_some());
    assert!(tree.get_name("b.txt").is_some());
    assert!(tree.get_name("base.txt").is_some());
}

#[test]
fn single_branch_empty_wip_uses_head_tree() {
    let (g, mut r, mut doc, target_sha) = setup("empty_wip");
    let base = g.find_commit(git_oid(target_sha)).unwrap();
    let a = commit_files(&g, None, &[&base], "work", &[("base.txt", "base\n"), ("a.txt", "1\n")]);
    let id = new_branch(&mut doc, &r, "b1", 1);
    doc.branches[0].head = lib_oid(a);
    doc.branches[0].tree = lib_oid(g.find_commit(a).unwrap().tree_id());
    apply_branch(&mut r, &mut doc, id, 2).unwrap();
    let t = doc.get_default_target().unwrap().duplicate();
    update_gitbutler_integration(&mut r, &t, &doc.list_branches(), &None).unwrap();
    // The integration tree equals the branch head's tree, and the hidden ref
    // points at the head itself: no WIP commit stands in between.
    let ic = g.find_reference(INTEGRATION_REF).unwrap().peel_to_commit().unwrap();
    assert_eq!(ic.tree_id(), g.find_commit(a).unwrap().tree_id());
    let hr = g.find_reference("refs/gitbutler/b1").unwrap();
    assert_eq!(hr.target().unwrap(), a);
}

#[test]
fn conflicting_branch_refused() {
    let (g, mut r, mut doc, target_sha) = setup("conflict");
    let base = g.find_commit(git_oid(target_sha)).unwrap();
    let a = commit_files(&g, None, &[&base], "edits x", &[("base.txt", "from a\n")]);
    let b = commit_files(&g, None, &[&base], "edits y", &[("base.txt", "from b\n")]);
    let ida = new_branch(&mut doc, &r, "a", 1);
    let idb = new_branch(&mut doc, &r, "b", 2);
    doc.branches[0].head = lib_oid(a);
    doc.branches[0].tree = lib_oid(g.find_commit(a).unwrap().tree_id());
    doc.branches[1].head = lib_oid(b);
    doc.branches[1].tree = lib_oid(g.find_commit(b).unwrap().tree_id());
    apply_branch(&mut r, &mut doc, ida, 3).unwrap();
    let before_applied: Vec<bool> = doc.branches.iter().map(|x| x.applied).collect();
    let before_ts: Vec<u64> = doc.branches.iter().map(|x| x.updated_ts).collect();
    let err = apply_branch(&mut r, &mut doc, idb, 4).unwrap_err();
    assert_eq!(err, Error::WorkspaceMergeConflict { branch: idb });
    // Nothing was persisted: the applied set and timestamps are unchanged.
    let after_applied: Vec<bool> = doc.branches.iter().map(|x| x.applied).collect();
    let after_ts: Vec<u64> = doc.branches.iter().map(|x| x.updated_ts).collect();
    assert_eq!(before_applied, after_applied);
    assert_eq!(before_ts, after_ts);
}

#[test]
fn apply_then_unapply_round_trip() {
    let (_g, mut r, mut doc, _target_sha) = setup("round_trip");
    let id = new_branch(&mut doc, &r, "b1", 1);
    let snapshot = (
        doc.branches[0].name.clone(),
        doc.branches[0].head,
        doc.branches[0].tree,
        doc.branches[0].order,
        doc.branches[0].created_ts,
        doc.branches[0].applied,
    );
    apply_branch(&mut r, &mut doc, id, 50).unwrap();
    assert!(doc.branches[0].applied);
    unapply_branch(&mut doc, id, 60).unwrap();
    // Everything persisted is as before, except the update timestamp.
    let restored = (
        doc.branches[0].name.clone(),
        doc.branches[0].head,
        doc.branches[0].tree,
        doc.branches[0].order,
        doc.branches[0].created_ts,
        doc.branches[0].applied,
    );
    assert_eq!(snapshot, restored);
    assert_eq!(doc.branches[0].updated_ts, 60);
}

#[test]
fn foreign_commit_repair() {
    let (g, mut r, mut doc, target_sha) = setup("repair");
    let t = doc.get_default_target().unwrap().duplicate();
    update_gitbutler_integration(&mut r, &t, &doc.list_branches(), &None).unwrap();

    // A foreign tool commits directly on the integration ref.
    let ic = g.find_reference(INTEGRATION_REF).unwrap().peel_to_commit().unwrap();
    let foreign = commit_files(&g, Some(INTEGRATION_REF), &[&ic], "oops\n\nmore detail",
        &[("oops.txt", "3\n")]);
    g.set_head(INTEGRATION_REF).unwrap();

    let new_id = BranchId { hi: 9, lo: 9 };
    verify_branch(&mut r, &mut doc, new_id, 100).unwrap();

    // The foreign commit was reattached to a fresh applied branch named
    // after its subject line.
    assert_eq!(doc.branches.len(), 1);
    let nb = &doc.branches[0];
    assert_eq!(nb.id, new_id);
    assert_eq!(nb.name, "oops");
    assert!(nb.applied);
    let rebased = g.find_commit(git_oid(nb.head)).unwrap();
    assert_eq!(rebased.message().unwrap(), "oops\n\nmore detail");
    assert_eq!(rebased.parent_count(), 1);
    assert_eq!(rebased.parent_id(0).unwrap(), git_oid(target_sha));
    assert_eq!(rebased.tree_id(), g.find_commit(foreign).unwrap().tree_id());
    assert_eq!(lib_oid(rebased.tree_id()), nb.tree);
    // The integration ref is back at the engine's own commit.
    let now_ic = g.find_reference(INTEGRATION_REF).unwrap().peel_to_commit().unwrap();
    assert_eq!(now_ic.id(), ic.id());

    // A second run finds the head clean and changes nothing.
    verify_branch(&mut r, &mut doc, BranchId { hi: 8, lo: 8 }, 101).unwrap();
    assert_eq!(doc.branches.len(), 1);
}

#[test]
fn verifier_classifies_head_states() {
    let (g, mut r, mut doc, target_sha) = setup("head_states");
    // Head on a foreign branch: mutating verbs are blocked.
    let e = verify_branch(&mut r, &mut doc, BranchId { hi: 1, lo: 1 }, 1).unwrap_err();
    assert_eq!(e, Error::InvalidHead { name: String::from("refs/heads/base") });
    // Detached head: the user must repair it by hand.
    g.set_head_detached(git_oid(target_sha)).unwrap();
    let e = verify_branch(&mut r, &mut doc, BranchId { hi: 1, lo: 2 }, 2).unwrap_err();
    assert_eq!(e, Error::DetachedHead);
    // The integration ref without the engine's integration commit on it.
    g.reference(INTEGRATION_REF, git_oid(target_sha), true, "test setup").unwrap();
    g.set_head(INTEGRATION_REF).unwrap();
    let e = verify_branch(&mut r, &mut doc, BranchId { hi: 1, lo: 3 }, 3).unwrap_err();
    assert_eq!(e, Error::NoIntegrationCommit);
}

#[test]
fn missing_branch_head_is_backend_error() {
    let (_g, mut r, mut doc, _target_sha) = setup("missing_head");
    let _ = new_branch(&mut doc, &r, "broken", 1);
    doc.branches[0].head = Oid { w0: 1, w1: 2, w2: 3 };
    doc.branches[0].applied = true;
    let t = doc.get_default_target().unwrap().duplicate();
    let e = get_workspace_head(&mut r, &t, &doc.list_branches()).unwrap_err();
    assert!(matches!(e, Error::GitBackend { .. }));
}

#[test]
fn repair_chains_two_foreign_commits() {
    let (g, mut r, mut doc, target_sha) = setup("repair_two");
    let t = doc.get_default_target().unwrap().duplicate();
    update_gitbutler_integration(&mut r, &t, &doc.list_branches(), &None).unwrap();
    let ic = g.find_reference(INTEGRATION_REF).unwrap().peel_to_commit().unwrap();
    // Two foreign commits, the older one first.
    let f1 = commit_files(&g, Some(INTEGRATION_REF), &[&ic], "first stray",
        &[("one.txt", "1\n")]);
    let f1c = g.find_commit(f1).unwrap();
    let f2 = commit_files(&g, Some(INTEGRATION_REF), &[&f1c], "second stray",
        &[("one.txt", "1\n"), ("two.txt", "2\n")]);
    g.set_head(INTEGRATION_REF).unwrap();

    let new_id = BranchId { hi: 9, lo: 9 };
    verify_branch(&mut r, &mut doc, new_id, 100).unwrap();

    // The branch is named after the newest stray commit's subject, and its
    // head is the rewritten chain: oldest first, parents chained up from the
    // target, each keeping its message and tree.
    assert_eq!(doc.branches.len(), 1);
    let nb = &doc.branches[0];
    assert_eq!(nb.name, "second stray");
    let top = g.find_commit(git_oid(nb.head)).unwrap();
    assert_eq!(top.message().unwrap(), "second stray");
    assert_eq!(top.tree_id(), g.find_commit(f2).unwrap().tree_id());
    let below = top.parent(0).unwrap();
    assert_eq!(below.message().unwrap(), "first stray");
    assert_eq!(below.tree_id(), g.find_commit(f1).unwrap().tree_id());
    assert_eq!(below.parent_id(0).unwrap(), git_oid(target_sha));
    // The integration ref is back on the engine's own commit.
    let now_ic = g.find_reference(INTEGRATION_REF).unwrap().peel_to_commit().unwrap();
    assert_eq!(now_ic.id(), ic.id());
}

#[test]
fn integration_with_given_workspace_commit() {
    let (g, mut r, mut doc, target_sha) = setup("given_ws");
    let id = new_branch(&mut doc, &r, "b1", 1);
    apply_branch(&mut r, &mut doc, id, 2).unwrap();
    let t = doc.get_default_target().unwrap().duplicate();
    let listed = doc.list_branches();
    let ws = get_workspace_head(&mut r, &t, &listed).unwrap();
    let out = update_gitbutler_integration_with_commit(&mut r, &t, &listed, &None, Some(ws))
        .unwrap();
    let ic = g.find_commit(git_oid(out.commit)).unwrap();
    assert_eq!(ic.tree_id(), g.find_commit(git_oid(ws)).unwrap().tree_id());
    assert_eq!(ic.parent_id(0).unwrap(), git_oid(target_sha));
}
