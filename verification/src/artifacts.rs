//! Content-addressed, append-only artifact storage.
//!
//! Artifacts are appended under a task and filed by the SHA-256 of their
//! JSON text. An artifact can be committed once; a task's collection can be
//! finalized once, after which nothing more is appended to it.
use vstd::prelude::*;
use vstd::utf8::encode_utf8;
use crate::domain::{Artifact, ArtifactView, Part, artifacts_view};
use crate::digest::{sha256_hex, sha256_hex_of};
use crate::invariants::dsl::{artifact_json, artifact_to_json, part_json, part_to_json};
use crate::json::{jview, lemma_text_of_view, to_json_string, view_text};
use crate::strmap::StrMap;
use crate::ambient::now_rfc3339;
use crate::text::{owned, push_str, str_eq};

verus! {

/// The content hash of JSON text: SHA-256 of its UTF-8 bytes, in hexadecimal.
pub open spec fn text_digest(text: Seq<char>) -> Seq<char> {
    sha256_hex(encode_utf8(text))
}

/// The content hash of an artifact.
pub open spec fn artifact_digest(a: Artifact) -> Seq<char> {
    text_digest(view_text(artifact_json(a)))
}

/// The content hash of a part.
pub open spec fn part_digest(p: Part) -> Seq<char> {
    text_digest(view_text(part_json(p)))
}

fn digest_of_text(text: &str) -> (r: String)
    ensures
        r@ == text_digest(text@),
{
    sha256_hex_of(text.as_bytes())
}

/// Why an artifact store operation failed.
#[derive(Debug, Clone)]
pub enum ArtifactStoreError {
    ArtifactNotFound { artifact_id: String },
    TaskNotFound { task_id: String },
    ContentHashMismatch { artifact_id: String },
    ArtifactAlreadyCommitted { artifact_id: String },
    TaskAlreadyFinalized { task_id: String },
    StorageError { message: String },
}

/// The text of an error.
pub open spec fn store_error_text(e: ArtifactStoreError) -> Seq<char> {
    match e {
        ArtifactStoreError::ArtifactNotFound { artifact_id } => "Artifact not found: "@ + artifact_id@,
        ArtifactStoreError::TaskNotFound { task_id } => "Task not found: "@ + task_id@,
        ArtifactStoreError::ContentHashMismatch { artifact_id } => "Content hash mismatch for artifact "@ + artifact_id@,
        ArtifactStoreError::ArtifactAlreadyCommitted { artifact_id } => "Artifact "@ + artifact_id@
            + " is already committed and cannot be modified"@,
        ArtifactStoreError::TaskAlreadyFinalized { task_id } => "Task "@ + task_id@ + " is already finalized"@,
        ArtifactStoreError::StorageError { message } => "Storage error: "@ + message@,
    }
}

impl ArtifactStoreError {
    /// The text of the error.
    pub fn message(&self) -> (r: String)
        ensures
            r@ == store_error_text(*self),
    {
        let mut m = String::new();
        match self {
            ArtifactStoreError::ArtifactNotFound { artifact_id } => {
                push_str(&mut m, "Artifact not found: ");
                push_str(&mut m, artifact_id.as_str());
            },
            ArtifactStoreError::TaskNotFound { task_id } => {
                push_str(&mut m, "Task not found: ");
                push_str(&mut m, task_id.as_str());
            },
            ArtifactStoreError::ContentHashMismatch { artifact_id } => {
                push_str(&mut m, "Content hash mismatch for artifact ");
                push_str(&mut m, artifact_id.as_str());
            },
            ArtifactStoreError::ArtifactAlreadyCommitted { artifact_id } => {
                push_str(&mut m, "Artifact ");
                push_str(&mut m, artifact_id.as_str());
                push_str(&mut m, " is already committed and cannot be modified");
            },
            ArtifactStoreError::TaskAlreadyFinalized { task_id } => {
                push_str(&mut m, "Task ");
                push_str(&mut m, task_id.as_str());
                push_str(&mut m, " is already finalized");
            },
            ArtifactStoreError::StorageError { message } => {
                push_str(&mut m, "Storage error: ");
                push_str(&mut m, message.as_str());
            },
        }
        assert(m@ =~= store_error_text(*self));
        m
    }
}

/// A content hash, in hexadecimal.
#[derive(Debug, PartialEq, Eq, Hash)]
pub struct ContentHash(String);

impl View for ContentHash {
    type V = Seq<char>;

    closed spec fn view(&self) -> Seq<char> {
        self.0@
    }
}

impl Clone for ContentHash {
    fn clone(&self) -> (r: Self)
        ensures
            r@ == self@,
    {
        ContentHash(self.0.clone())
    }
}

impl ContentHash {
    /// A content hash with the given text.
    pub fn new(hash: String) -> (r: Self)
        ensures
            r@ == hash@,
    {
        ContentHash(hash)
    }

    /// The text of the hash.
    pub fn as_str(&self) -> (r: &str)
        ensures
            r@ == self@,
    {
        self.0.as_str()
    }

    /// The hash of an artifact's JSON text.
    pub fn from_artifact(artifact: &Artifact) -> (r: Result<ContentHash, ArtifactStoreError>)
        ensures
            r matches Ok(h) && h@ == artifact_digest(*artifact),
    {
        let v = artifact_to_json(artifact);
        let text = to_json_string(&v);
        proof {
            lemma_text_of_view(v);
        }
        Ok(ContentHash(digest_of_text(text.as_str())))
    }

    /// The hash of a part's JSON text.
    pub fn from_part(part: &Part) -> (r: Result<ContentHash, ArtifactStoreError>)
        ensures
            r matches Ok(h) && h@ == part_digest(*part),
    {
        let v = part_to_json(part);
        let text = to_json_string(&v);
        proof {
            lemma_text_of_view(v);
        }
        Ok(ContentHash(digest_of_text(text.as_str())))
    }
}

/// An artifact as stored, with its hash and whether it is committed.
#[derive(Debug)]
pub struct StoredArtifact {
    pub artifact: Artifact,
    pub content_hash: ContentHash,
    pub committed: bool,
    pub task_id: String,
    /// When it was stored, in RFC 3339.
    pub stored_at: String,
}

/// The abstract content of a stored artifact.
pub struct StoredView {
    pub artifact: ArtifactView,
    pub content_hash: Seq<char>,
    pub committed: bool,
    pub task_id: Seq<char>,
    pub stored_at: Seq<char>,
}

impl View for StoredArtifact {
    type V = StoredView;

    open spec fn view(&self) -> StoredView {
        StoredView {
            artifact: self.artifact@,
            content_hash: self.content_hash@,
            committed: self.committed,
            task_id: self.task_id@,
            stored_at: self.stored_at@,
        }
    }
}

impl Clone for StoredArtifact {
    fn clone(&self) -> (r: Self)
        ensures
            r@ == self@,
    {
        StoredArtifact {
            artifact: self.artifact.clone(),
            content_hash: self.content_hash.clone(),
            committed: self.committed,
            task_id: self.task_id.clone(),
            stored_at: self.stored_at.clone(),
        }
    }
}

/// The stored artifact, committed.
pub open spec fn committed_view(s: StoredView) -> StoredView {
    StoredView { artifact: s.artifact, content_hash: s.content_hash, committed: true, task_id: s.task_id, stored_at: s.stored_at }
}

/// The views of stored artifacts.
pub open spec fn stored_views(v: Seq<StoredArtifact>) -> Seq<StoredView> {
    v.map_values(|s: StoredArtifact| s@)
}

fn clone_stored(v: &Vec<StoredArtifact>) -> (r: Vec<StoredArtifact>)
    ensures
        stored_views(r@) == stored_views(v@),
{
    let mut r: Vec<StoredArtifact> = Vec::new();
    let mut i: usize = 0;
    while i < v.len()
        invariant
            i <= v@.len(),
            stored_views(r@) == stored_views(v@.take(i as int)),
        decreases v@.len() - i,
    {
        let ghost before = r@;
        r.push(v[i].clone());
        assert(stored_views(r@) =~= stored_views(before).push(v@[i as int]@));
        assert(stored_views(v@.take(i + 1)) =~= stored_views(v@.take(i as int)).push(v@[i as int]@));
        i = i + 1;
    }
    assert(v@.take(i as int) =~= v@);
    r
}

/// The artifacts of one task.
#[derive(Debug)]
pub struct TaskArtifacts {
    pub task_id: String,
    pub artifacts: Vec<StoredArtifact>,
    pub finalized: bool,
    /// When the collection was finalized, in RFC 3339.
    pub finalized_at: Option<String>,
}

/// The abstract content of a task's collection.
pub struct CollectionView {
    pub task_id: Seq<char>,
    pub artifacts: Seq<StoredView>,
    pub finalized: bool,
    pub finalized_at: Option<Seq<char>>,
}

impl View for TaskArtifacts {
    type V = CollectionView;

    open spec fn view(&self) -> CollectionView {
        CollectionView {
            task_id: self.task_id@,
            artifacts: stored_views(self.artifacts@),
            finalized: self.finalized,
            finalized_at: match self.finalized_at {
                Some(t) => Some(t@),
                None => None,
            },
        }
    }
}

impl Clone for TaskArtifacts {
    fn clone(&self) -> (r: Self)
        ensures
            r@ == self@,
    {
        TaskArtifacts {
            task_id: self.task_id.clone(),
            artifacts: clone_stored(&self.artifacts),
            finalized: self.finalized,
            finalized_at: match &self.finalized_at {
                Some(t) => Some(t.clone()),
                None => None,
            },
        }
    }
}

/// `i` is the first position of an artifact with id `a`.
pub open spec fn first_with_id(arts: Seq<StoredView>, a: Seq<char>, i: int) -> bool {
    &&& 0 <= i < arts.len()
    &&& arts[i].artifact.artifact_id == a
    &&& forall|j: int| 0 <= j < i ==> #[trigger] arts[j].artifact.artifact_id != a
}

/// The artifacts with the first one of id `a`, if any, committed.
pub open spec fn mark_first(arts: Seq<StoredView>, a: Seq<char>) -> Seq<StoredView> {
    if exists|i: int| first_with_id(arts, a, i) {
        let i = choose|i: int| first_with_id(arts, a, i);
        arts.update(i, committed_view(arts[i]))
    } else {
        arts
    }
}

/// The collection of `task` in `c` with `x` appended, or a new collection
/// holding `x` alone.
pub open spec fn with_stored(c: Map<Seq<char>, CollectionView>, task: Seq<char>, x: StoredView) -> CollectionView {
    if c.contains_key(task) {
        CollectionView {
            task_id: c[task].task_id,
            artifacts: c[task].artifacts.push(x),
            finalized: c[task].finalized,
            finalized_at: c[task].finalized_at,
        }
    } else {
        CollectionView { task_id: task, artifacts: seq![x], finalized: false, finalized_at: None }
    }
}

/// `sv` is what appending `artifact` with hash `h` under `task` stores: not
/// yet committed, stamped with the time of the call.
pub open spec fn fresh_stored(sv: StoredView, artifact: ArtifactView, h: Seq<char>, task: Seq<char>) -> bool {
    &&& sv.artifact == artifact
    &&& sv.content_hash == h
    &&& !sv.committed
    &&& sv.task_id == task
}

/// The index entries of `task`.
pub open spec fn entries_of(ix: Map<Seq<char>, Map<Seq<char>, Seq<char>>>, task: Seq<char>) -> Map<Seq<char>, Seq<char>> {
    if ix.contains_key(task) {
        ix[task]
    } else {
        Map::empty()
    }
}

/// Storage of artifacts: a backend keeps them append-only, and a committed
/// artifact is never modified.
pub trait ArtifactStore {
    /// The store is in a consistent state.
    spec fn store_ready(&self) -> bool;

    /// Stores an artifact under a task, not yet committed; gives its hash.
    fn append(&mut self, task_id: &str, artifact: Artifact) -> (r: Result<ContentHash, ArtifactStoreError>)
        requires
            old(self).store_ready(),
        ensures
            final(self).store_ready(),
    ;

    /// Commits an artifact of a task.
    fn commit(&mut self, task_id: &str, artifact_id: &str) -> (r: Result<(), ArtifactStoreError>)
        requires
            old(self).store_ready(),
        ensures
            final(self).store_ready(),
    ;

    /// Commits every artifact of a task and finalizes its collection.
    fn commit_task(&mut self, task_id: &str) -> (r: Result<(), ArtifactStoreError>)
        requires
            old(self).store_ready(),
        ensures
            final(self).store_ready(),
    ;

    /// The artifact stored under a hash.
    fn get_by_hash(&self, hash: &ContentHash) -> Result<StoredArtifact, ArtifactStoreError>
        requires
            self.store_ready(),
    ;

    /// The artifact of a task with the given id.
    fn get_by_id(&self, task_id: &str, artifact_id: &str) -> Result<StoredArtifact, ArtifactStoreError>
        requires
            self.store_ready(),
    ;

    /// The artifacts of a task, in the order they were appended.
    fn list_by_task(&self, task_id: &str) -> Result<Vec<StoredArtifact>, ArtifactStoreError>
        requires
            self.store_ready(),
    ;

    /// The collection of a task.
    fn get_task_artifacts(&self, task_id: &str) -> Result<TaskArtifacts, ArtifactStoreError>
        requires
            self.store_ready(),
    ;
}

/// The collection with the first artifact of id `a`, if any, committed.
pub open spec fn with_marked(c: CollectionView, a: Seq<char>) -> CollectionView {
    CollectionView { task_id: c.task_id, artifacts: mark_first(c.artifacts, a), finalized: c.finalized, finalized_at: c.finalized_at }
}

/// Two stores hold the same artifacts, collections and index.
pub open spec fn same_contents(a: InMemoryArtifactStore, b: InMemoryArtifactStore) -> bool {
    &&& a.hashed() == b.hashed()
    &&& a.collections() == b.collections()
    &&& a.indexed() == b.indexed()
}

/// An artifact store held in memory.
#[derive(Debug)]
pub struct InMemoryArtifactStore {
    by_hash: StrMap<StoredArtifact>,
    by_task: StrMap<TaskArtifacts>,
    index: StrMap<StrMap<ContentHash>>,
}

impl InMemoryArtifactStore {
    /// The stored artifacts, by hash.
    pub closed spec fn hashed(&self) -> Map<Seq<char>, StoredView> {
        self.by_hash.map().map_values(|s: StoredArtifact| s@)
    }

    /// The collections, by task id.
    pub closed spec fn collections(&self) -> Map<Seq<char>, CollectionView> {
        self.by_task.map().map_values(|t: TaskArtifacts| t@)
    }

    /// The hash of each artifact id, by task id.
    pub closed spec fn indexed(&self) -> Map<Seq<char>, Map<Seq<char>, Seq<char>>> {
        self.index.map().map_values(|m: StrMap<ContentHash>| m.map().map_values(|h: ContentHash| h@))
    }

    /// The maps are well formed.
    pub closed spec fn wf(&self) -> bool {
        &&& self.by_hash.wf()
        &&& self.by_task.wf()
        &&& self.index.wf()
        &&& forall|t: Seq<char>| #[trigger] self.index.map().contains_key(t) ==> self.index.map()[t].wf()
    }

    /// The collection of `t` is finalized.
    pub open spec fn finalized(&self, t: Seq<char>) -> bool {
        self.collections().contains_key(t) && self.collections()[t].finalized
    }

    /// The hash filed for artifact `a` of task `t`.
    pub open spec fn lookup(&self, t: Seq<char>, a: Seq<char>) -> Option<Seq<char>> {
        if self.indexed().contains_key(t) && self.indexed()[t].contains_key(a) {
            Some(self.indexed()[t][a])
        } else {
            None
        }
    }

    /// An empty store.
    pub fn new() -> (r: Self)
        ensures
            r.wf(),
            r.hashed() == Map::<Seq<char>, StoredView>::empty(),
            r.collections() == Map::<Seq<char>, CollectionView>::empty(),
            r.indexed() == Map::<Seq<char>, Map<Seq<char>, Seq<char>>>::empty(),
    {
        let r = InMemoryArtifactStore { by_hash: StrMap::new(), by_task: StrMap::new(), index: StrMap::new() };
        assert(r.hashed() =~= Map::<Seq<char>, StoredView>::empty());
        assert(r.collections() =~= Map::<Seq<char>, CollectionView>::empty());
        assert(r.indexed() =~= Map::<Seq<char>, Map<Seq<char>, Seq<char>>>::empty());
        r
    }
}

impl Default for InMemoryArtifactStore {
    fn default() -> (r: Self)
        ensures
            r.wf(),
            r.hashed() == Map::<Seq<char>, StoredView>::empty(),
            r.collections() == Map::<Seq<char>, CollectionView>::empty(),
            r.indexed() == Map::<Seq<char>, Map<Seq<char>, Seq<char>>>::empty(),
    {
        InMemoryArtifactStore::new()
    }
}

impl ArtifactStore for InMemoryArtifactStore {
    open spec fn store_ready(&self) -> bool {
        self.wf()
    }

    fn append(&mut self, task_id: &str, artifact: Artifact) -> (r: Result<ContentHash, ArtifactStoreError>)
        ensures
            old(self).finalized(task_id@) ==> (r matches Err(ArtifactStoreError::TaskAlreadyFinalized { task_id: t })
                && t@ == task_id@ && final(self).hashed() == old(self).hashed()
                && final(self).collections() == old(self).collections() && final(self).indexed() == old(self).indexed()),
            !old(self).finalized(task_id@) ==> (r matches Ok(h) && h@ == artifact_digest(artifact)
                && exists|sv: StoredView| #[trigger] fresh_stored(sv, artifact@, h@, task_id@)
                    && final(self).hashed() == (if old(self).hashed().contains_key(h@) {
                        old(self).hashed()
                    } else {
                        old(self).hashed().insert(h@, sv)
                    })
                    && final(self).collections() == old(self).collections().insert(task_id@,
                        with_stored(old(self).collections(), task_id@, sv))
                && final(self).indexed() == old(self).indexed().insert(task_id@,
                    entries_of(old(self).indexed(), task_id@).insert(artifact@.artifact_id, h@))),
            forall|t: Seq<char>| #[trigger] old(self).finalized(t) ==> final(self).finalized(t),
            forall|k: Seq<char>| #[trigger] old(self).hashed().contains_key(k) ==> final(self).hashed().contains_key(k)
                && final(self).hashed()[k] == old(self).hashed()[k],
    {
        let ghost before = *self;
        match self.by_task.get(task_id) {
            Some(c) => {
                if c.finalized {
                    return Err(ArtifactStoreError::TaskAlreadyFinalized { task_id: owned(task_id) });
                }
            },
            None => {},
        }
        let content_hash = match ContentHash::from_artifact(&artifact) {
            Ok(h) => h,
            Err(e) => {
                return Err(e);
            },
        };
        let ghost av = artifact@;
        let artifact_id = artifact.artifact_id.clone();
        let stored = StoredArtifact {
            artifact,
            content_hash: content_hash.clone(),
            committed: false,
            task_id: owned(task_id),
            stored_at: now_rfc3339(),
        };
        let copy = stored.clone();
        let ghost sv = stored@;
        if !self.by_hash.contains_key(content_hash.0.as_str()) {
            self.by_hash.insert(content_hash.0.clone(), stored);
            proof {
                assert(self.hashed() =~= before.hashed().insert(content_hash@, sv));
            }
        } else {
            proof {
                assert(self.hashed() =~= before.hashed());
            }
        }
        let mut coll = match self.by_task.remove(task_id) {
            Some(c) => c,
            None => TaskArtifacts { task_id: owned(task_id), artifacts: Vec::new(), finalized: false, finalized_at: None },
        };
        let ghost cv0 = coll@;
        let ghost arts0 = coll.artifacts@;
        coll.artifacts.push(copy);
        proof {
            assert(stored_views(coll.artifacts@) =~= stored_views(arts0).push(sv));
            assert(coll@ == with_stored(before.collections(), task_id@, sv)) by {
                if before.collections().contains_key(task_id@) {
                    assert(before.by_task.map().contains_key(task_id@));
                } else {
                    assert(stored_views(arts0) =~= Seq::<StoredView>::empty());
                    assert(stored_views(arts0).push(sv) =~= seq![sv]);
                }
            }
        }
        self.by_task.insert(owned(task_id), coll);
        proof {
            assert(self.collections() =~= before.collections().insert(task_id@, with_stored(before.collections(), task_id@, sv)));
        }
        let mut entries = match self.index.remove(task_id) {
            Some(m) => m,
            None => StrMap::new(),
        };
        let ghost ev0 = entries.map().map_values(|h: ContentHash| h@);
        proof {
            assert(ev0 =~= entries_of(before.indexed(), task_id@));
        }
        entries.insert(artifact_id, content_hash.clone());
        let ghost ev1 = entries.map().map_values(|h: ContentHash| h@);
        proof {
            assert(ev1 =~= ev0.insert(av.artifact_id, content_hash@));
        }
        self.index.insert(owned(task_id), entries);
        proof {
            assert(self.indexed() =~= before.indexed().insert(task_id@, ev1));
            assert forall|t: Seq<char>| #[trigger] self.index.map().contains_key(t) implies self.index.map()[t].wf() by {
                if t != task_id@ {
                    assert(before.index.map().contains_key(t));
                }
            }
            assert(fresh_stored(sv, av, content_hash@, task_id@));
        }
        Ok(content_hash)
    }

    fn commit(&mut self, task_id: &str, artifact_id: &str) -> (r: Result<(), ArtifactStoreError>)
        ensures
            old(self).lookup(task_id@, artifact_id@) is None ==> (r matches Err(ArtifactStoreError::ArtifactNotFound { artifact_id: a })
                && a@ == artifact_id@ && same_contents(*old(self), *final(self))),
            old(self).lookup(task_id@, artifact_id@) matches Some(h) ==> {
                &&& !old(self).hashed().contains_key(h) ==> (r matches Err(ArtifactStoreError::ArtifactNotFound { artifact_id: a })
                    && a@ == artifact_id@ && same_contents(*old(self), *final(self)))
                &&& old(self).hashed().contains_key(h) && old(self).hashed()[h].committed ==> (r matches Err(
                    ArtifactStoreError::ArtifactAlreadyCommitted { artifact_id: a }) && a@ == artifact_id@
                    && same_contents(*old(self), *final(self)))
                &&& old(self).hashed().contains_key(h) && !old(self).hashed()[h].committed ==> {
                    &&& r is Ok
                    &&& final(self).hashed() == old(self).hashed().insert(h, committed_view(old(self).hashed()[h]))
                    &&& final(self).indexed() == old(self).indexed()
                    &&& final(self).collections() == if old(self).collections().contains_key(task_id@) {
                        old(self).collections().insert(task_id@, with_marked(old(self).collections()[task_id@], artifact_id@))
                    } else {
                        old(self).collections()
                    }
                }
            },
            forall|t: Seq<char>| #[trigger] old(self).finalized(t) ==> final(self).finalized(t),
            forall|k: Seq<char>| #[trigger] old(self).hashed().contains_key(k) && old(self).hashed()[k].committed
                ==> final(self).hashed().contains_key(k) && final(self).hashed()[k].committed,
    {
        let ghost before = *self;
        let hash = match self.index.get(task_id) {
            Some(m) => match m.get(artifact_id) {
                Some(h) => h.clone(),
                None => {
                    return Err(ArtifactStoreError::ArtifactNotFound { artifact_id: owned(artifact_id) });
                },
            },
            None => {
                return Err(ArtifactStoreError::ArtifactNotFound { artifact_id: owned(artifact_id) });
            },
        };
        match self.by_hash.get(hash.as_str()) {
            Some(s) => {
                if s.committed {
                    return Err(ArtifactStoreError::ArtifactAlreadyCommitted { artifact_id: owned(artifact_id) });
                }
            },
            None => {
                return Err(ArtifactStoreError::ArtifactNotFound { artifact_id: owned(artifact_id) });
            },
        }
        let mut stored = match self.by_hash.remove(hash.as_str()) {
            Some(s) => s,
            None => {
                return Err(ArtifactStoreError::ArtifactNotFound { artifact_id: owned(artifact_id) });
            },
        };
        let ghost sv = stored@;
        stored.committed = true;
        self.by_hash.insert(hash.0.clone(), stored);
        proof {
            assert(self.hashed() =~= before.hashed().insert(hash@, committed_view(sv)));
        }
        match self.by_task.remove(task_id) {
            Some(c) => {
                let mut c = c;
                let ghost cv = c@;
                let ghost arts = stored_views(c.artifacts@);
                let mut i: usize = 0;
                while i < c.artifacts.len() && !str_eq(c.artifacts[i].artifact.artifact_id.as_str(), artifact_id)
                    invariant
                        i <= c.artifacts@.len(),
                        arts == stored_views(c.artifacts@),
                        forall|j: int| 0 <= j < i ==> #[trigger] arts[j].artifact.artifact_id != artifact_id@,
                    decreases c.artifacts@.len() - i,
                {
                    i = i + 1;
                }
                if i < c.artifacts.len() {
                    c.artifacts[i].committed = true;
                    proof {
                        assert(first_with_id(arts, artifact_id@, i as int));
                        let k = choose|k: int| first_with_id(arts, artifact_id@, k);
                        if k < i {
                            assert(arts[k].artifact.artifact_id != artifact_id@);
                        } else if k > i {
                            assert(arts[i as int].artifact.artifact_id != artifact_id@);
                        }
                        assert(stored_views(c.artifacts@) =~= arts.update(i as int, committed_view(arts[i as int])));
                    }
                } else {
                    proof {
                        assert(!exists|k: int| first_with_id(arts, artifact_id@, k));
                    }
                }
                proof {
                    assert(c@ == with_marked(cv, artifact_id@));
                }
                self.by_task.insert(owned(task_id), c);
                proof {
                    assert(before.by_task.map().contains_key(task_id@));
                    assert(self.collections() =~= before.collections().insert(task_id@, with_marked(before.collections()[task_id@], artifact_id@)));
                }
            },
            None => {
                proof {
                    assert(self.collections() =~= before.collections());
                }
            },
        }
        Ok(())
    }

    fn commit_task(&mut self, task_id: &str) -> (r: Result<(), ArtifactStoreError>)
        ensures
            !old(self).collections().contains_key(task_id@) ==> (r matches Err(ArtifactStoreError::TaskNotFound { task_id: t })
                && t@ == task_id@ && same_contents(*old(self), *final(self))),
            old(self).finalized(task_id@) ==> (r matches Err(ArtifactStoreError::TaskAlreadyFinalized { task_id: t })
                && t@ == task_id@ && same_contents(*old(self), *final(self))),
            old(self).collections().contains_key(task_id@) && !old(self).finalized(task_id@) ==> {
                &&& r is Ok
                &&& final(self).hashed() == old(self).hashed()
                &&& final(self).indexed() == old(self).indexed()
                &&& final(self).collections() == old(self).collections().insert(task_id@, final(self).collections()[task_id@])
                &&& final(self).collections()[task_id@].task_id == old(self).collections()[task_id@].task_id
                &&& final(self).collections()[task_id@].artifacts
                    == old(self).collections()[task_id@].artifacts.map_values(|s: StoredView| committed_view(s))
                &&& final(self).collections()[task_id@].finalized
                &&& final(self).collections()[task_id@].finalized_at is Some
            },
            forall|t: Seq<char>| #[trigger] old(self).finalized(t) ==> final(self).finalized(t),
            forall|k: Seq<char>| #[trigger] old(self).hashed().contains_key(k) && old(self).hashed()[k].committed
                ==> final(self).hashed().contains_key(k) && final(self).hashed()[k].committed,
    {
        let ghost before = *self;
        match self.by_task.get(task_id) {
            Some(c) => {
                if c.finalized {
                    return Err(ArtifactStoreError::TaskAlreadyFinalized { task_id: owned(task_id) });
                }
            },
            None => {
                return Err(ArtifactStoreError::TaskNotFound { task_id: owned(task_id) });
            },
        }
        let mut c = match self.by_task.remove(task_id) {
            Some(c) => c,
            None => {
                return Err(ArtifactStoreError::TaskNotFound { task_id: owned(task_id) });
            },
        };
        let ghost arts = stored_views(c.artifacts@);
        let ghost c0 = c@;
        assert(c0 == before.collections()[task_id@]);
        let mut i: usize = 0;
        while i < c.artifacts.len()
            invariant
                c.task_id@ == c0.task_id,
                arts == c0.artifacts,
                i <= c.artifacts@.len(),
                arts.len() == c.artifacts@.len(),
                forall|j: int| 0 <= j < i ==> #[trigger] stored_views(c.artifacts@)[j] == committed_view(arts[j]),
                forall|j: int| i <= j < arts.len() ==> #[trigger] stored_views(c.artifacts@)[j] == arts[j],
            decreases c.artifacts@.len() - i,
        {
            let ghost prev = stored_views(c.artifacts@);
            c.artifacts[i].committed = true;
            assert(stored_views(c.artifacts@) =~= prev.update(i as int, committed_view(prev[i as int])));
            i = i + 1;
        }
        c.finalized = true;
        c.finalized_at = Some(now_rfc3339());
        proof {
            assert(stored_views(c.artifacts@) =~= arts.map_values(|s: StoredView| committed_view(s)));
        }
        let ghost cv = c@;
        self.by_task.insert(owned(task_id), c);
        proof {
            assert(self.collections() =~= before.collections().insert(task_id@, cv));
            assert(self.hashed() == before.hashed());
            assert(self.indexed() == before.indexed());
        }
        Ok(())
    }

    fn get_by_hash(&self, hash: &ContentHash) -> (r: Result<StoredArtifact, ArtifactStoreError>)
        ensures
            self.hashed().contains_key(hash@) ==> (r matches Ok(s) && s@ == self.hashed()[hash@]),
            !self.hashed().contains_key(hash@) ==> (r matches Err(ArtifactStoreError::ArtifactNotFound { artifact_id })
                && artifact_id@ == hash@),
    {
        match self.by_hash.get(hash.as_str()) {
            Some(s) => Ok(s.clone()),
            None => Err(ArtifactStoreError::ArtifactNotFound { artifact_id: owned(hash.as_str()) }),
        }
    }

    fn get_by_id(&self, task_id: &str, artifact_id: &str) -> (r: Result<StoredArtifact, ArtifactStoreError>)
        ensures
            self.lookup(task_id@, artifact_id@) is None ==> (r matches Err(ArtifactStoreError::ArtifactNotFound { artifact_id: a })
                && a@ == artifact_id@),
            self.lookup(task_id@, artifact_id@) matches Some(h) ==> {
                &&& self.hashed().contains_key(h) ==> (r matches Ok(s) && s@ == self.hashed()[h])
                &&& !self.hashed().contains_key(h) ==> (r matches Err(ArtifactStoreError::ArtifactNotFound { artifact_id: a })
                    && a@ == h)
            },
    {
        let hash = match self.index.get(task_id) {
            Some(m) => match m.get(artifact_id) {
                Some(h) => h.clone(),
                None => {
                    return Err(ArtifactStoreError::ArtifactNotFound { artifact_id: owned(artifact_id) });
                },
            },
            None => {
                return Err(ArtifactStoreError::ArtifactNotFound { artifact_id: owned(artifact_id) });
            },
        };
        self.get_by_hash(&hash)
    }

    fn list_by_task(&self, task_id: &str) -> (r: Result<Vec<StoredArtifact>, ArtifactStoreError>)
        ensures
            self.collections().contains_key(task_id@) ==> (r matches Ok(v)
                && stored_views(v@) == self.collections()[task_id@].artifacts),
            !self.collections().contains_key(task_id@) ==> (r matches Err(ArtifactStoreError::TaskNotFound { task_id: t })
                && t@ == task_id@),
    {
        match self.by_task.get(task_id) {
            Some(c) => Ok(clone_stored(&c.artifacts)),
            None => Err(ArtifactStoreError::TaskNotFound { task_id: owned(task_id) }),
        }
    }

    fn get_task_artifacts(&self, task_id: &str) -> (r: Result<TaskArtifacts, ArtifactStoreError>)
        ensures
            self.collections().contains_key(task_id@) ==> (r matches Ok(c) && c@ == self.collections()[task_id@]),
            !self.collections().contains_key(task_id@) ==> (r matches Err(ArtifactStoreError::TaskNotFound { task_id: t })
                && t@ == task_id@),
    {
        match self.by_task.get(task_id) {
            Some(c) => Ok(c.clone()),
            None => Err(ArtifactStoreError::TaskNotFound { task_id: owned(task_id) }),
        }
    }
}

/// Artifacts with the same content have the same hash.
pub proof fn lemma_same_content_same_hash(a: Artifact, b: Artifact)
    requires
        a@ == b@,
    ensures
        artifact_digest(a) == artifact_digest(b),
{
    assert(artifact_json(a) == artifact_json(b));
}

} // verus!
