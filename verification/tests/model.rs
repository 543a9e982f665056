//! Tests of the pure model: ownership arithmetic, message text, the sidecar
//! line, the document verbs, projects and events.

use gitbutler_core::ids::{BranchId, Oid, ProjectId};
use gitbutler_core::errors::Error;
use gitbutler_core::ownership::{BranchOwnershipClaims, LineRange, OwnershipClaim, subtract_claim, subtract_ranges};
use gitbutler_core::branch::{Branch, BranchCreateRequest, BranchUpdateRequest};
use gitbutler_core::store::{Target, VirtualBranches};
use gitbutler_core::messages::{PreviousHead, format_integration_sidecar, oid_to_hex, parse_integration_sidecar, wip_commit_message, integration_commit_message};
use gitbutler_core::project::{ApiProject, AuthKey, FetchResult, Project, default_snapshot_lines_threshold};
use gitbutler_core::events::{Event, InternalEvent, Session};
use gitbutler_core::verify::message_subject;
use gitbutler_core::controller::unapply_ownership;

fn range(start: u64, end: u64) -> LineRange {
    LineRange { start, end }
}

fn branch(id: u64, name: &str, order: usize, created_ts: u64) -> Branch {
    Branch {
        id: BranchId { hi: 0, lo: id },
        name: String::from(name),
        notes: String::new(),
        applied: false,
        upstream: None,
        head: Oid { w0: 0, w1: 0, w2: 0 },
        tree: Oid { w0: 0, w1: 0, w2: 0 },
        ownership: BranchOwnershipClaims { claims: Vec::new() },
        order,
        created_ts,
        updated_ts: created_ts,
    }
}

fn doc_with_target() -> VirtualBranches {
    let mut doc = VirtualBranches::new();
    doc.set_default_target(Target {
        remote_ref: String::from("refs/remotes/origin/master"),
        sha: Oid { w0: 7, w1: 7, w2: 7 },
        push_remote: None,
    });
    doc
}

#[test]
fn subtract_ranges_middle() {
    let rs = vec![range(1, 10)];
    let out = subtract_ranges(&rs, range(3, 5));
    assert_eq!(out, vec![range(1, 2), range(6, 10)]);
}

#[test]
fn subtract_ranges_disjoint() {
    let rs = vec![range(1, 2), range(10, 12)];
    let out = subtract_ranges(&rs, range(4, 6));
    assert_eq!(out, vec![range(1, 2), range(10, 12)]);
}

#[test]
fn subtract_ranges_whole() {
    let rs = vec![range(3, 5)];
    let out = subtract_ranges(&rs, range(1, 9));
    assert!(out.is_empty());
}

#[test]
fn subtract_claim_other_path_untouched() {
    let own = BranchOwnershipClaims {
        claims: vec![
            OwnershipClaim { file_path: String::from("a.txt"), ranges: vec![range(1, 10)] },
            OwnershipClaim { file_path: String::from("b.txt"), ranges: vec![range(2, 4)] },
        ],
    };
    let out = subtract_claim(&own, &String::from("a.txt"), range(3, 5));
    assert_eq!(out.claims.len(), 2);
    assert_eq!(out.claims[0].file_path, "a.txt");
    assert_eq!(out.claims[0].ranges, vec![range(1, 2), range(6, 10)]);
    assert_eq!(out.claims[1].file_path, "b.txt");
    assert_eq!(out.claims[1].ranges, vec![range(2, 4)]);
}

#[test]
fn unapply_ownership_splits_claims() {
    let mut doc = doc_with_target();
    let mut b1 = branch(1, "b1", 0, 1);
    b1.applied = true;
    b1.ownership = BranchOwnershipClaims {
        claims: vec![OwnershipClaim { file_path: String::from("a.txt"), ranges: vec![range(1, 10)] }],
    };
    let mut b2 = branch(2, "b2", 1, 2);
    b2.applied = true;
    b2.ownership = BranchOwnershipClaims {
        claims: vec![OwnershipClaim { file_path: String::from("b.txt"), ranges: vec![range(1, 3)] }],
    };
    let mut b3 = branch(3, "b3", 2, 3);
    b3.ownership = BranchOwnershipClaims {
        claims: vec![OwnershipClaim { file_path: String::from("a.txt"), ranges: vec![range(3, 5)] }],
    };
    doc.branches.push(b1);
    doc.branches.push(b2);
    doc.branches.push(b3);
    unapply_ownership(&mut doc, &String::from("a.txt"), range(3, 5), 99);
    // The applied claim on a.txt is split around the released lines.
    assert_eq!(doc.branches[0].ownership.claims[0].ranges, vec![range(1, 2), range(6, 10)]);
    assert_eq!(doc.branches[0].updated_ts, 99);
    // Claims on other files and unapplied branches are untouched.
    assert_eq!(doc.branches[1].ownership.claims[0].ranges, vec![range(1, 3)]);
    assert_eq!(doc.branches[2].ownership.claims[0].ranges, vec![range(3, 5)]);
    assert_eq!(doc.branches[2].updated_ts, 3);
}

#[test]
fn sidecar_round_trip() {
    let p = PreviousHead { head: String::from("refs/heads/feature"), sha: String::from("abc123") };
    let line = format_integration_sidecar(&p);
    assert_eq!(line, "refs/heads/feature:abc123");
    let q = parse_integration_sidecar(&line).unwrap();
    assert_eq!(q.head, "refs/heads/feature");
    assert_eq!(q.sha, "abc123");
}

#[test]
fn sidecar_rejects_missing_colon() {
    assert!(parse_integration_sidecar(&String::from("refs/heads/feature")).is_none());
}

#[test]
fn oid_hex_known_value() {
    let z = Oid::zero();
    assert_eq!(oid_to_hex(&z), "0000000000000000000000000000000000000000");
    let o = Oid { w0: 0, w1: 0, w2: 1 };
    assert_eq!(oid_to_hex(&o), "0000000000000000000000000000000000000001");
    let o2 = Oid { w0: 0x0123456789abcdef, w1: 0, w2: 0 };
    assert_eq!(oid_to_hex(&o2), "0123456789abcdef000000000000000000000000");
}

#[test]
fn wip_message_prefix() {
    let m = wip_commit_message(&String::from("b1"));
    assert!(m.starts_with("GitButler WIP Commit"));
    assert!(m.contains("virtual branch 'b1'"));
}

#[test]
fn integration_message_lists_branches_and_previous() {
    let mut b = branch(1, "b1", 0, 1);
    b.applied = true;
    b.head = Oid { w0: 0, w1: 0, w2: 2 };
    b.ownership = BranchOwnershipClaims {
        claims: vec![OwnershipClaim { file_path: String::from("a.txt"), ranges: vec![range(1, 2)] }],
    };
    let prev = Some(PreviousHead {
        head: String::from("refs/heads/feature"),
        sha: String::from("ffff"),
    });
    let target_sha = Oid { w0: 0, w1: 0, w2: 7 };
    let m = integration_commit_message(&vec![b], target_sha, &prev);
    assert!(m.starts_with("GitButler Integration Commit"));
    assert!(m.contains("Here are the branches that are currently applied:\n - b1 (refs/gitbutler/b1)\n"));
    assert!(m.contains("   branch head: 0000000000000000000000000000000000000002\n"));
    assert!(m.contains("   - a.txt\n"));
    assert!(m.contains("\nYour previous branch was: refs/heads/feature\n"));
    assert!(m.contains("The sha for that commit was: ffff\n"));
    assert!(m.ends_with("https://docs.gitbutler.com/features/virtual-branches/integration-branch\n"));
}

#[test]
fn message_subject_cuts_at_newline() {
    assert_eq!(message_subject(&String::from("oops\nmore text")), "oops");
    assert_eq!(message_subject(&String::from("plain")), "plain");
}

#[test]
fn list_branches_orders_by_order_then_created() {
    let mut doc = doc_with_target();
    doc.branches.push(branch(1, "late", 2, 5));
    doc.branches.push(branch(2, "tie-young", 1, 9));
    doc.branches.push(branch(3, "tie-old", 1, 3));
    let listed = doc.list_branches();
    let names: Vec<&str> = listed.iter().map(|b| b.name.as_str()).collect();
    assert_eq!(names, vec!["tie-old", "tie-young", "late"]);
}

#[test]
fn create_then_delete_leaves_no_branch() {
    let mut doc = doc_with_target();
    let id = BranchId { hi: 1, lo: 1 };
    let req = BranchCreateRequest { name: Some(String::from("b1")), ownership: None, order: None };
    doc.create_virtual_branch(req, id, Oid::zero(), 42).unwrap();
    assert_eq!(doc.branches.len(), 1);
    assert_eq!(doc.branches[0].name, "b1");
    assert!(!doc.branches[0].applied);
    assert_eq!(doc.branches[0].head, Oid { w0: 7, w1: 7, w2: 7 });
    doc.delete_virtual_branch(id).unwrap();
    assert!(doc.branches.is_empty());
}

#[test]
fn create_without_target_refused() {
    let mut doc = VirtualBranches::new();
    let req = BranchCreateRequest { name: None, ownership: None, order: None };
    let r = doc.create_virtual_branch(req, BranchId { hi: 0, lo: 9 }, Oid::zero(), 0);
    assert_eq!(r, Err(Error::TargetMissing));
}

#[test]
fn delete_applied_branch_refused() {
    let mut doc = doc_with_target();
    let id = BranchId { hi: 1, lo: 2 };
    let req = BranchCreateRequest { name: None, ownership: None, order: None };
    doc.create_virtual_branch(req, id, Oid::zero(), 1).unwrap();
    doc.set_applied(id, true, 2).unwrap();
    assert_eq!(doc.delete_virtual_branch(id), Err(Error::BranchStillApplied));
    assert_eq!(doc.branches.len(), 1);
}

#[test]
fn missing_branch_reported() {
    let mut doc = doc_with_target();
    let id = BranchId { hi: 3, lo: 3 };
    assert_eq!(doc.set_applied(id, true, 0), Err(Error::BranchNotFound { id }));
    assert_eq!(doc.delete_virtual_branch(id), Err(Error::BranchNotFound { id }));
}

#[test]
fn update_virtual_branch_overrides_set_fields() {
    let mut doc = doc_with_target();
    doc.branches.push(branch(1, "old-name", 4, 7));
    let req = BranchUpdateRequest {
        id: BranchId { hi: 0, lo: 1 },
        name: Some(String::from("new-name")),
        notes: Some(String::from("note")),
        upstream: None,
        ownership: None,
        order: Some(2),
    };
    doc.update_virtual_branch(req, 99).unwrap();
    let b = &doc.branches[0];
    assert_eq!(b.name, "new-name");
    assert_eq!(b.notes, "note");
    assert_eq!(b.upstream, None);
    assert_eq!(b.order, 2);
    assert_eq!(b.created_ts, 7);
    assert_eq!(b.updated_ts, 99);
    // An absent branch is reported.
    let req2 = BranchUpdateRequest {
        id: BranchId { hi: 9, lo: 9 },
        name: None,
        notes: None,
        upstream: None,
        ownership: None,
        order: None,
    };
    assert_eq!(doc.update_virtual_branch(req2, 100),
        Err(Error::BranchNotFound { id: BranchId { hi: 9, lo: 9 } }));
}

#[test]
fn project_gb_dir() {
    let mut p = Project::default();
    p.path = String::from("/work/proj");
    assert_eq!(p.gb_dir(), "/work/proj/.git/gitbutler");
    assert_eq!(p.virtual_branches().gb_dir, "/work/proj/.git/gitbutler");
}

#[test]
fn project_sync_flags() {
    let mut p = Project::default();
    assert!(!p.is_sync_enabled());
    assert!(!p.has_code_url());
    p.api = Some(ApiProject {
        name: String::from("x"),
        description: None,
        repository_id: String::from("r"),
        git_url: String::from("g"),
        code_git_url: Some(String::from("c")),
        created_at: String::from("t"),
        updated_at: String::from("t"),
        sync: true,
    });
    assert!(p.is_sync_enabled());
    assert!(p.has_code_url());
    assert_eq!(p.preferred_key, AuthKey::SystemExecutable);
    assert_eq!(default_snapshot_lines_threshold(), 20);
    assert_eq!(p.snapshot_lines_threshold, 20);
}

#[test]
fn fetch_result_timestamp() {
    let f = FetchResult::Fetched { timestamp: 11 };
    assert_eq!(*f.timestamp(), 11);
    let e = FetchResult::Error { timestamp: 12, error: String::from("boom") };
    assert_eq!(*e.timestamp(), 12);
}

#[test]
fn event_project_id() {
    let pid = ProjectId { hi: 1, lo: 2 };
    assert_eq!(*Event::CalculateVirtualBranches(pid).project_id(), pid);
    assert_eq!(*Event::FetchGitbutlerData(pid).project_id(), pid);
    assert_eq!(*Event::PushGitbutlerData(pid).project_id(), pid);
    let s = Session { id: String::from("s1") };
    assert_eq!(*Event::Flush(pid, s).project_id(), pid);
}

#[test]
fn internal_event_display() {
    let pid = ProjectId { hi: 0, lo: 1 };
    let e = InternalEvent::CalculateVirtualBranches(pid);
    assert_eq!(e.display_string(), "VirtualBranch(00000000000000000000000000000001)");
    let f: InternalEvent = Event::FetchGitbutlerData(pid).into();
    assert_eq!(f.display_string(), "FetchGitbutlerData(00000000000000000000000000000001)");
}
