//! The git adapter: a typed view over one repository's object database and
//! refs, with a spec-level model of both.
//!
//! The model is a map of commit records, a map of refs, the set of known
//! trees, the head, and the tree last read into the index.  Each operation's
//! contract says how the call changes the model; the object database is
//! append-only and content-addressed, so the commit map only ever grows, and
//! one id never stands for two different records.

use vstd::prelude::*;
use git2::Oid as GitOid;
use crate::ids::Oid;
use crate::errors::Error;

verus! {

#[verifier::external_type_specification]
#[verifier::external_body]
pub struct ExGitRepository(git2::Repository);

#[verifier::external_type_specification]
#[verifier::external_body]
pub struct ExGitOid(GitOid);

/// The modelled content of one commit object: its tree, parents, message,
/// and author identity.  (Dates are part of the object but not modelled.)
#[verifier::ext_equal]
pub ghost struct CommitModel {
    pub tree: Oid,
    pub parents: Seq<Oid>,
    pub message: Seq<char>,
    pub author_name: Seq<char>,
    pub author_email: Seq<char>,
}

/// Where the head points: at a ref by name, or directly at a commit.
pub ghost enum HeadModel {
    Symbolic { name: Seq<char> },
    Detached { at: Oid },
}

/// The modelled state of a repository.
#[verifier::ext_equal]
pub ghost struct RepoModel {
    /// An opaque fingerprint of the repository configuration that governs
    /// merges (merge drivers, rename limits).  The engine never changes it;
    /// merge results are a function of it and of the trees merged.
    pub merge_config: int,
    /// Every commit in the object database, by id.
    pub commits: Map<Oid, CommitModel>,
    /// Every ref, by full name, with the id it points at.
    pub refs: Map<Seq<char>, Oid>,
    /// The ids known to name trees in the object database.
    pub trees: Set<Oid>,
    /// Where the head points.
    pub head: HeadModel,
    /// The tree last read into the index, when one is known.
    pub index_tree: Option<Oid>,
}

/// An open repository together with its model.
pub struct Repo {
    inner: git2::Repository,
    model: Ghost<RepoModel>,
}

impl View for Repo {
    type V = RepoModel;

    closed spec fn view(&self) -> RepoModel {
        self.model@
    }
}

/// What a commit lookup returns: the commit's id, tree, parents and message
/// as plain values.
#[derive(Debug)]
pub struct CommitInfo {
    pub id: Oid,
    pub tree: Oid,
    pub parents: Vec<Oid>,
    pub message: String,
}

/// Whether `info` faithfully reports the record `m` stored under `oid`.
pub open spec fn commit_info_matches(info: CommitInfo, oid: Oid, m: CommitModel) -> bool {
    &&& info.id == oid
    &&& info.tree == m.tree
    &&& info.parents@ == m.parents
    &&& info.message@ == m.message
}

/// A full ref name under `refs/`, as every name the engine touches is.
pub open spec fn plain_ref_name(n: Seq<char>) -> bool {
    n.len() >= 5 && n.subrange(0, 5) == "refs/"@
}

/// A full branch name, under `refs/heads/`.  Only such a name may become the
/// head: on any other existing ref libgit2 detaches instead.
pub open spec fn branch_ref_name(n: Seq<char>) -> bool {
    n.len() >= 11 && n.subrange(0, 11) == "refs/heads/"@
}

/// `chain` steps from each commit to one of its listed parents.
pub open spec fn is_parent_chain(commits: Map<Oid, CommitModel>, chain: Seq<Oid>) -> bool {
    forall|k: int|
        0 <= k < chain.len() - 1 ==> commits.contains_key(#[trigger] chain[k])
            && commits[chain[k]].parents.contains(chain[k + 1])
}

/// `b` is an ancestor of `a`, or `a` itself: some parent chain leads from
/// `a` down to `b`.
pub open spec fn reachable(commits: Map<Oid, CommitModel>, a: Oid, b: Oid) -> bool {
    exists|chain: Seq<Oid>| #[trigger] is_parent_chain(commits, chain) && chain.len() > 0
        && chain.first() == a && chain.last() == b
}

/// What the three-way merge of `ours` and `theirs` against `ancestor`
/// produces in a repository with the given merge configuration: the merged
/// tree's id, or nothing when the merge conflicts.  Trees are
/// content-addressed and libgit2's tree merge reads only the trees and the
/// repository's merge configuration, so the result is a function of these
/// four values.
pub uninterp spec fn merged_tree(merge_config: int, ancestor: Oid, ours: Oid, theirs: Oid) -> Option<Oid>;

/// Relies on git2::Repository::open: opens the repository at the path.
#[verifier::external_body]
fn open_raw(path: &str) -> (r: Result<git2::Repository, Error>)
    ensures
        r matches Err(e) ==> e is GitBackend,
{
    git2::Repository::open(path)
        .map_err(|e| Error::GitBackend { message: e.message().to_string() })
}

/// Converts the library's object id to git2's; the twenty bytes are carried
/// over unchanged, so the mapping keeps distinct ids distinct.
#[verifier::external_body]
fn oid_to_git(o: &Oid) -> GitOid {
    let mut b = [0u8; 20];
    b[..8].copy_from_slice(&o.w0.to_be_bytes());
    b[8..16].copy_from_slice(&o.w1.to_be_bytes());
    b[16..].copy_from_slice(&o.w2.to_be_bytes());
    GitOid::from_bytes(&b).unwrap()
}

/// Converts git2's object id to the library's; the inverse of `oid_to_git`.
#[verifier::external_body]
fn oid_from_git(o: GitOid) -> Oid {
    let b = o.as_bytes();
    let mut w0 = [0u8; 8];
    let mut w1 = [0u8; 8];
    let mut w2 = [0u8; 4];
    w0.copy_from_slice(&b[..8]);
    w1.copy_from_slice(&b[8..16]);
    w2.copy_from_slice(&b[16..]);
    Oid { w0: u64::from_be_bytes(w0), w1: u64::from_be_bytes(w1), w2: u32::from_be_bytes(w2) }
}

impl Repo {
    /// Opens the repository at `path`.  Nothing is known of the model of a
    /// freshly opened repository; later calls reveal it piece by piece.
    pub fn open(path: &str) -> (r: Result<Repo, Error>) {
        match open_raw(path) {
            Ok(inner) => Ok(Repo { inner, model: Ghost(arbitrary()) }),
            Err(e) => Err(e),
        }
    }

    /// Relies on git2::Repository::find_commit: on success the commit with
    /// exactly the requested id was found, and its tree, parents and message
    /// are reported as stored.
    #[verifier::external_body]
    pub fn find_commit(&self, oid: Oid) -> (r: Result<CommitInfo, Error>)
        ensures
            r matches Ok(info) ==> self@.commits.contains_key(oid) && commit_info_matches(info,
                oid, self@.commits[oid]),
            r matches Err(e) ==> e is GitBackend,
    {
        let g = |e: git2::Error| Error::GitBackend { message: e.message().to_string() };
        let c = self.inner.find_commit(oid_to_git(&oid)).map_err(g)?;
        let parents = c.parent_ids().map(oid_from_git).collect();
        let message = String::from_utf8_lossy(c.message_bytes()).into_owned();
        Ok(CommitInfo { id: oid, tree: oid_from_git(c.tree_id()), parents, message })
    }

    /// Relies on git2::Repository::merge_trees, Index::has_conflicts and
    /// Index::write_tree_to: merges `theirs` into `ours` against `ancestor`;
    /// a clean merge writes the merged tree, a conflicted one writes nothing.
    /// The object database only grows; commits, refs, head and index stay.
    /// When `ours` is the unchanged ancestor the merge is trivial and yields
    /// `theirs` exactly, with no conflict.
    #[verifier::external_body]
    pub fn merge_trees(&mut self, ancestor: Oid, ours: Oid, theirs: Oid) -> (r: Result<
        Option<Oid>,
        Error,
    >)
        ensures
            old(self)@.trees.subset_of(final(self)@.trees),
            final(self)@.merge_config == old(self)@.merge_config,
            final(self)@.commits == old(self)@.commits,
            final(self)@.refs == old(self)@.refs,
            final(self)@.head == old(self)@.head,
            final(self)@.index_tree == old(self)@.index_tree,
            r matches Ok(o) ==> o == merged_tree(old(self)@.merge_config, ancestor, ours, theirs),
            r matches Ok(o) ==> (ours == ancestor ==> o == Some(theirs)),
            r matches Ok(o) && o matches Some(t) ==> final(self)@.trees.contains(t),
            r matches Err(e) ==> e is GitBackend,
    {
        let g = |e: git2::Error| Error::GitBackend { message: e.message().to_string() };
        let a = self.inner.find_tree(oid_to_git(&ancestor)).map_err(g)?;
        let o = self.inner.find_tree(oid_to_git(&ours)).map_err(g)?;
        let t = self.inner.find_tree(oid_to_git(&theirs)).map_err(g)?;
        let mut idx = self.inner.merge_trees(&a, &o, &t, None).map_err(g)?;
        if idx.has_conflicts() {
            return Ok(None);
        }
        Ok(Some(oid_from_git(idx.write_tree_to(&self.inner).map_err(g)?)))
    }

    /// Relies on git2::Repository::commit and git2::Signature::now: creates a
    /// commit with the given message, tree and parents, authored by the fixed
    /// integration identity, updating `update_ref` to it when one is named.
    /// Content addressing: an id already present stands for the same record.
    #[verifier::external_body]
    pub fn commit_fixed_identity(
        &mut self,
        update_ref: Option<&str>,
        message: &str,
        tree: Oid,
        parents: &Vec<Oid>,
    ) -> (r: Result<Oid, Error>)
        requires
            (update_ref matches Some(n) ==> plain_ref_name(n@)),
        ensures
            final(self)@.merge_config == old(self)@.merge_config,
            final(self)@.head == old(self)@.head,
            final(self)@.trees == old(self)@.trees,
            final(self)@.index_tree == old(self)@.index_tree,
            r matches Ok(c) ==> {
                let m = CommitModel {
                    tree,
                    parents: parents@,
                    message: message@,
                    author_name: "GitButler"@,
                    author_email: "gitbutler@gitbutler.com"@,
                };
                &&& final(self)@.commits == old(self)@.commits.insert(c, m)
                &&& (old(self)@.commits.contains_key(c) ==> old(self)@.commits[c] == m)
                &&& final(self)@.refs == (match update_ref {
                    Some(n) => old(self)@.refs.insert(n@, c),
                    None => old(self)@.refs,
                })
            },
            r is Err ==> final(self)@.refs == old(self)@.refs && old(self)@.commits.submap_of(
                final(self)@.commits),
            r matches Err(e) ==> e is GitBackend,
    {
        let g = |e: git2::Error| Error::GitBackend { message: e.message().to_string() };
        let sig = git2::Signature::now("GitButler", "gitbutler@gitbutler.com").map_err(g)?;
        let t = self.inner.find_tree(oid_to_git(&tree)).map_err(g)?;
        let mut ps = Vec::new();
        for p in parents.iter() {
            ps.push(self.inner.find_commit(oid_to_git(p)).map_err(g)?);
        }
        let pr: Vec<&git2::Commit> = ps.iter().collect();
        let c = self.inner.commit(update_ref, &sig, &sig, message, &t, &pr).map_err(g)?;
        Ok(oid_from_git(c))
    }

    /// Relies on git2::Repository::commit, Commit::author and
    /// Commit::committer: rewrites `original` onto `new_parent`, keeping its
    /// author, committer, message and tree.
    #[verifier::external_body]
    pub fn commit_rebased(&mut self, original: Oid, new_parent: Oid) -> (r: Result<Oid, Error>)
        ensures
            final(self)@.merge_config == old(self)@.merge_config,
            final(self)@.head == old(self)@.head,
            final(self)@.trees == old(self)@.trees,
            final(self)@.index_tree == old(self)@.index_tree,
            final(self)@.refs == old(self)@.refs,
            old(self)@.commits.submap_of(final(self)@.commits),
            r matches Ok(c) ==> old(self)@.commits.contains_key(original) && {
                let orig = old(self)@.commits[original];
                let m = CommitModel {
                    tree: orig.tree,
                    parents: seq![new_parent],
                    message: orig.message,
                    author_name: orig.author_name,
                    author_email: orig.author_email,
                };
                &&& final(self)@.commits == old(self)@.commits.insert(c, m)
                &&& (old(self)@.commits.contains_key(c) ==> old(self)@.commits[c] == m)
            },
            r matches Err(e) ==> e is GitBackend,
    {
        let g = |e: git2::Error| Error::GitBackend { message: e.message().to_string() };
        let orig = self.inner.find_commit(oid_to_git(&original)).map_err(g)?;
        let parent = self.inner.find_commit(oid_to_git(&new_parent)).map_err(g)?;
        let tree = orig.tree().map_err(g)?;
        let msg = String::from_utf8_lossy(orig.message_bytes()).into_owned();
        let c = self
            .inner
            .commit(None, &orig.author(), &orig.committer(), &msg, &tree, &[&parent])
            .map_err(g)?;
        Ok(oid_from_git(c))
    }

    /// Relies on git2::Repository::reference: creates or (with `force`)
    /// overwrites the named direct ref, with a reflog message.
    #[verifier::external_body]
    pub fn update_reference(
        &mut self,
        name: &str,
        id: Oid,
        force: bool,
        log_message: &str,
    ) -> (r: Result<(), Error>)
        requires
            plain_ref_name(name@),
        ensures
            final(self)@.merge_config == old(self)@.merge_config,
            final(self)@.commits == old(self)@.commits,
            final(self)@.trees == old(self)@.trees,
            final(self)@.head == old(self)@.head,
            final(self)@.index_tree == old(self)@.index_tree,
            r is Ok ==> final(self)@.refs == old(self)@.refs.insert(name@, id),
            r is Err ==> final(self)@.refs == old(self)@.refs,
            r matches Err(e) ==> e is GitBackend,
    {
        let g = |e: git2::Error| Error::GitBackend { message: e.message().to_string() };
        self.inner.reference(name, oid_to_git(&id), force, log_message).map_err(g)?;
        Ok(())
    }

    /// Relies on git2::Repository::find_reference and Reference::delete:
    /// removes the named ref; a ref that does not exist is already removed.
    #[verifier::external_body]
    pub fn delete_reference(&mut self, name: &str) -> (r: Result<(), Error>)
        requires
            plain_ref_name(name@),
        ensures
            final(self)@.merge_config == old(self)@.merge_config,
            final(self)@.commits == old(self)@.commits,
            final(self)@.trees == old(self)@.trees,
            final(self)@.head == old(self)@.head,
            final(self)@.index_tree == old(self)@.index_tree,
            r is Ok ==> final(self)@.refs == old(self)@.refs.remove(name@),
            r is Err ==> final(self)@.refs == old(self)@.refs,
            r matches Err(e) ==> e is GitBackend,
    {
        let g = |e: git2::Error| Error::GitBackend { message: e.message().to_string() };
        match self.inner.find_reference(name) {
            Ok(mut rf) => rf.delete().map_err(g)?,
            Err(e) if e.code() == git2::ErrorCode::NotFound => {},
            Err(e) => return Err(g(e)),
        }
        Ok(())
    }

    /// Relies on git2::Repository::head and head_detached: reports where the
    /// head points.  A symbolic head names its branch ref (git refnames are
    /// ASCII, so the name always decodes); a detached head has no name and
    /// reports the commit it sits on.
    #[verifier::external_body]
    pub fn head_info(&self) -> (r: Result<HeadInfo, Error>)
        ensures
            r matches Ok(h) ==> {
                &&& (h.name is None <==> self@.head is Detached)
                &&& (self@.head matches HeadModel::Detached { at } ==> h.target == Some(at))
                &&& (h.name matches Some(n) ==> (self@.head matches HeadModel::Symbolic { name }
                    && n@ == name))
                &&& (self@.head matches HeadModel::Symbolic { name } ==> (
                    self@.refs.contains_key(name) ==> ((h.name matches Some(n) && n@ == name)
                        && h.target == Some(self@.refs[name]))))
            },
            r matches Err(e) ==> e is GitBackend,
    {
        let g = |e: git2::Error| Error::GitBackend { message: e.message().to_string() };
        let detached = self.inner.head_detached().map_err(g)?;
        let h = self.inner.head().map_err(g)?;
        let target = h.target().map(oid_from_git);
        let name: Option<String> = if detached { None } else { h.name().ok().map(|s| s.to_string()) };
        Ok(HeadInfo { name, target })
    }

    /// Relies on git2::Repository::set_head: makes the head symbolic, at the
    /// named branch ref.  The name must lie under `refs/heads/`: for an
    /// existing ref of any other kind libgit2 detaches the head instead.
    #[verifier::external_body]
    pub fn set_head(&mut self, refname: &str) -> (r: Result<(), Error>)
        requires
            branch_ref_name(refname@),
        ensures
            final(self)@.merge_config == old(self)@.merge_config,
            final(self)@.commits == old(self)@.commits,
            final(self)@.trees == old(self)@.trees,
            final(self)@.refs == old(self)@.refs,
            final(self)@.index_tree == old(self)@.index_tree,
            r is Ok ==> final(self)@.head == (HeadModel::Symbolic { name: refname@ }),
            r is Err ==> final(self)@.head == old(self)@.head,
            r matches Err(e) ==> e is GitBackend,
    {
        let g = |e: git2::Error| Error::GitBackend { message: e.message().to_string() };
        self.inner.set_head(refname).map_err(g)?;
        Ok(())
    }

    /// Relies on git2::Repository::reset with the soft kind: moves what the
    /// head points at to `to`, leaving index and working tree alone.  Under a
    /// symbolic head the branch ref moves; a detached head moves itself.
    #[verifier::external_body]
    pub fn reset_soft(&mut self, to: Oid) -> (r: Result<(), Error>)
        ensures
            final(self)@.merge_config == old(self)@.merge_config,
            final(self)@.commits == old(self)@.commits,
            final(self)@.trees == old(self)@.trees,
            final(self)@.index_tree == old(self)@.index_tree,
            r is Ok ==> {
                &&& (old(self)@.head matches HeadModel::Symbolic { name } ==> final(self)@.refs
                    == old(self)@.refs.insert(name, to) && final(self)@.head == old(self)@.head)
                &&& (old(self)@.head is Detached ==> final(self)@.head == (HeadModel::Detached {
                    at: to }) && final(self)@.refs == old(self)@.refs)
            },
            r is Err ==> final(self)@.refs == old(self)@.refs && final(self)@.head
                == old(self)@.head,
            r matches Err(e) ==> e is GitBackend,
    {
        let g = |e: git2::Error| Error::GitBackend { message: e.message().to_string() };
        let obj = self
            .inner
            .find_object(oid_to_git(&to), Some(git2::ObjectType::Commit))
            .map_err(g)?;
        self.inner.reset(&obj, git2::ResetType::Soft, None).map_err(g)?;
        Ok(())
    }

    /// Relies on git2::Repository::revwalk with push_range: lists, each
    /// exactly once, the commits reachable from `from` but not from `until`.
    /// A commit whose parent is missing from the object database stops the
    /// walk with an error, so on success the walked set is exactly that
    /// difference of ancestries.  When `from`'s one parent is `until`, the
    /// walk is exactly `from` alone.
    #[verifier::external_body]
    pub fn log_until(&self, from: Oid, until: Oid) -> (r: Result<Vec<Oid>, Error>)
        ensures
            r matches Ok(v) ==> forall|k: int|
                0 <= k < v@.len() ==> self@.commits.contains_key(#[trigger] v@[k]),
            r matches Ok(v) ==> (forall|i: int, j: int| 0 <= i < j < v@.len() ==> v@[i] != v@[j]),
            r matches Ok(v) ==> (forall|x: Oid| #[trigger] v@.contains(x) <==> (
                self@.commits.contains_key(x) && reachable(self@.commits, from, x) && !reachable(
                self@.commits, until, x))),
            r matches Ok(v) && self@.commits.contains_key(from) && self@.commits[from].parents
                =~= seq![until] ==> r->Ok_0@ =~= seq![from],
            r matches Err(e) ==> e is GitBackend,
    {
        let g = |e: git2::Error| Error::GitBackend { message: e.message().to_string() };
        let mut walk = self.inner.revwalk().map_err(g)?;
        let range = format!("{}..{}", oid_to_git(&until), oid_to_git(&from));
        walk.push_range(&range).map_err(g)?;
        let mut v = Vec::new();
        for item in walk {
            v.push(oid_from_git(item.map_err(g)?));
        }
        Ok(v)
    }

    /// Relies on git2::Repository::index, Index::read_tree and Index::write:
    /// reads the tree into the index and persists it.
    #[verifier::external_body]
    pub fn set_index_tree(&mut self, tree: Oid) -> (r: Result<(), Error>)
        ensures
            final(self)@.merge_config == old(self)@.merge_config,
            final(self)@.commits == old(self)@.commits,
            final(self)@.trees == old(self)@.trees,
            final(self)@.refs == old(self)@.refs,
            final(self)@.head == old(self)@.head,
            r is Ok ==> final(self)@.index_tree == Some(tree),
            r matches Err(e) ==> e is GitBackend,
    {
        let g = |e: git2::Error| Error::GitBackend { message: e.message().to_string() };
        let t = self.inner.find_tree(oid_to_git(&tree)).map_err(g)?;
        let mut idx = self.inner.index().map_err(g)?;
        idx.read_tree(&t).map_err(g)?;
        idx.write().map_err(g)?;
        Ok(())
    }
}

/// Where the head points, as plain values: the ref name when symbolic, and
/// the commit it resolves to when known.
#[derive(Debug)]
pub struct HeadInfo {
    pub name: Option<String>,
    pub target: Option<Oid>,
}

} // verus!
