//! The artifact immutability invariant: an artifact, once observed, never changes.
use vstd::prelude::*;
use vstd::string::StringSliceAdditionalSpecFns;
use super::{Invariant, InvariantResult, InvariantViolation, ViolationView, result_view};
use crate::domain::{Artifact, ArtifactView, Part, PartView, Task, TaskView, artifacts_of};
use crate::hashing::{fnv, fnv_from, fnv_extend, FNV_OFFSET};
use crate::text::{owned, str_eq};

verus! {

/// The UTF-8 bytes of a string followed by a terminator byte.
pub open spec fn enc_str(s: Seq<char>) -> Seq<u8> {
    vstd::utf8::encode_utf8(s).push(0xffu8)
}

/// An optional string: a presence byte, then the string if present.
pub open spec fn enc_opt(o: Option<Seq<char>>) -> Seq<u8> {
    match o {
        None => seq![0u8],
        Some(s) => seq![1u8] + enc_str(s),
    }
}

/// A part: a kind byte, then its fields.
pub open spec fn enc_part(p: PartView) -> Seq<u8> {
    match p {
        PartView::Text { text } => seq![0x10u8] + enc_str(text),
        PartView::File { name, mime_type, uri, bytes } => seq![0x11u8] + enc_opt(name) + enc_opt(mime_type)
            + enc_opt(uri) + enc_opt(bytes),
        PartView::Data { data } => seq![0x12u8] + enc_str(data),
    }
}

/// The parts of an artifact, one after the other.
pub open spec fn enc_parts(parts: Seq<Part>) -> Seq<u8>
    decreases parts.len(),
{
    if parts.len() == 0 {
        Seq::empty()
    } else {
        enc_parts(parts.drop_last()) + enc_part(parts.last()@)
    }
}

/// The bytes over which an artifact's content hash is computed: its id,
/// name, description and parts.
pub open spec fn enc_artifact(a: ArtifactView) -> Seq<u8> {
    enc_str(a.artifact_id) + enc_opt(a.name) + enc_opt(a.description) + enc_parts(a.parts)
}

/// The content hash of an artifact.
pub open spec fn artifact_digest(a: ArtifactView) -> u64 {
    fnv(enc_artifact(a))
}

fn hash_str(h: u64, s: &str) -> (r: u64)
    ensures
        r == fnv_from(h, enc_str(s@)),
{
    let h1 = fnv_extend(h, s.as_bytes());
    let term: [u8; 1] = [0xffu8];
    let r = fnv_extend(h1, &term);
    proof {
        lemma_fnv_concat(h, vstd::utf8::encode_utf8(s@), seq![0xffu8]);
        assert(term@ =~= seq![0xffu8]);
        assert(vstd::utf8::encode_utf8(s@) + seq![0xffu8] =~= enc_str(s@));
    }
    r
}

fn hash_byte(h: u64, b: u8) -> (r: u64)
    ensures
        r == fnv_from(h, seq![b]),
{
    let arr: [u8; 1] = [b];
    assert(arr@ =~= seq![b]);
    fnv_extend(h, &arr)
}

fn hash_opt(h: u64, o: &Option<String>) -> (r: u64)
    ensures
        r == fnv_from(h, enc_opt(crate::domain::opt_str(*o))),
{
    match o {
        None => hash_byte(h, 0u8),
        Some(s) => {
            let h1 = hash_byte(h, 1u8);
            let r = hash_str(h1, s.as_str());
            proof {
                lemma_fnv_concat(h, seq![1u8], enc_str(s@));
            }
            r
        },
    }
}

fn hash_part(h: u64, p: &Part) -> (r: u64)
    ensures
        r == fnv_from(h, enc_part(p@)),
{
    match p {
        Part::Text { text } => {
            let h1 = hash_byte(h, 0x10u8);
            proof { lemma_fnv_concat(h, seq![0x10u8], enc_str(text@)); }
            hash_str(h1, text.as_str())
        },
        Part::File { name, mime_type, uri, bytes } => {
            let h1 = hash_byte(h, 0x11u8);
            let h2 = hash_opt(h1, name);
            let h3 = hash_opt(h2, mime_type);
            let h4 = hash_opt(h3, uri);
            let h5 = hash_opt(h4, bytes);
            proof {
                let a = seq![0x11u8];
                let b = enc_opt(crate::domain::opt_str(*name));
                let c = enc_opt(crate::domain::opt_str(*mime_type));
                let d = enc_opt(crate::domain::opt_str(*uri));
                let e = enc_opt(crate::domain::opt_str(*bytes));
                lemma_fnv_concat(h, a, b);
                lemma_fnv_concat(h, a + b, c);
                lemma_fnv_concat(h, a + b + c, d);
                lemma_fnv_concat(h, a + b + c + d, e);
            }
            h5
        },
        Part::Data { data } => {
            let h1 = hash_byte(h, 0x12u8);
            proof { lemma_fnv_concat(h, seq![0x12u8], enc_str(data@)); }
            hash_str(h1, data.as_str())
        },
    }
}

/// Hashing a concatenation is hashing the second part from the state the first left.
pub proof fn lemma_fnv_concat(h: u64, a: Seq<u8>, b: Seq<u8>)
    ensures
        fnv_from(h, a + b) == fnv_from(fnv_from(h, a), b),
    decreases b.len(),
{
    if b.len() == 0 {
        assert(a + b =~= a);
    } else {
        lemma_fnv_concat(h, a, b.drop_last());
        assert((a + b).drop_last() =~= a + b.drop_last());
        assert((a + b).last() == b.last());
    }
}

/// The content hash of an artifact.
pub fn artifact_content_hash(a: &Artifact) -> (r: u64)
    ensures
        r == artifact_digest(a@),
{
    let h1 = hash_str(FNV_OFFSET, a.artifact_id.as_str());
    let h2 = hash_opt(h1, &a.name);
    let h3 = hash_opt(h2, &a.description);
    proof {
        lemma_fnv_concat(FNV_OFFSET, enc_str(a.artifact_id@), enc_opt(crate::domain::opt_str(a.name)));
        lemma_fnv_concat(FNV_OFFSET, enc_str(a.artifact_id@) + enc_opt(crate::domain::opt_str(a.name)),
            enc_opt(crate::domain::opt_str(a.description)));
    }
    let ghost head = enc_str(a.artifact_id@) + enc_opt(crate::domain::opt_str(a.name))
        + enc_opt(crate::domain::opt_str(a.description));
    let mut h = h3;
    let mut i: usize = 0;
    assert(a.parts@.take(0) =~= Seq::<Part>::empty());
    assert(head + enc_parts(Seq::<Part>::empty()) =~= head);
    while i < a.parts.len()
        invariant
            i <= a.parts@.len(),
            h == fnv_from(FNV_OFFSET, head + enc_parts(a.parts@.take(i as int))),
        decreases a.parts@.len() - i,
    {
        let ghost before = enc_parts(a.parts@.take(i as int));
        h = hash_part(h, &a.parts[i]);
        proof {
            assert(a.parts@.take(i + 1).drop_last() =~= a.parts@.take(i as int));
            assert(a.parts@.take(i + 1).last() == a.parts@[i as int]);
            lemma_fnv_concat(FNV_OFFSET, head + before, enc_part(a.parts@[i as int]@));
            assert(head + before + enc_part(a.parts@[i as int]@) =~= head + enc_parts(a.parts@.take(i + 1)));
        }
        i = i + 1;
    }
    assert(a.parts@.take(i as int) =~= a.parts@);
    assert(head + enc_parts(a.parts@) =~= enc_artifact(a@));
    h
}

/// The immutable properties of an artifact, as first observed.
#[derive(Debug, Clone, PartialEq, Eq, Hash)]
pub struct ArtifactSnapshot {
    /// The artifact's id.
    pub artifact_id: String,
    /// The artifact's content hash.
    pub content_hash: u64,
}

impl ArtifactSnapshot {
    /// The snapshot of an artifact.
    pub fn from_artifact(artifact: &Artifact) -> (r: Self)
        ensures
            r.artifact_id@ == artifact.artifact_id@,
            r.content_hash == artifact_digest(artifact@),
    {
        ArtifactSnapshot { artifact_id: artifact.artifact_id.clone(), content_hash: artifact_content_hash(artifact) }
    }

    /// `true` iff `artifact` has this snapshot's id and content hash.
    pub fn matches(&self, artifact: &Artifact) -> (r: bool)
        ensures
            r == (self.artifact_id@ == artifact.artifact_id@ && self.content_hash == artifact_digest(artifact@)),
    {
        let current = Self::from_artifact(artifact);
        str_eq(self.artifact_id.as_str(), current.artifact_id.as_str()) && self.content_hash == current.content_hash
    }
}

/// The snapshot recorded for `id`, if any (the latest one).
pub open spec fn snapshot_for(snaps: Seq<ArtifactSnapshot>, id: Seq<char>) -> Option<ArtifactSnapshot>
    decreases snaps.len(),
{
    if snaps.len() == 0 {
        None
    } else if snaps.last().artifact_id@ == id {
        Some(snaps.last())
    } else {
        snapshot_for(snaps.drop_last(), id)
    }
}

/// The ids of a sequence of snapshots.
pub open spec fn snapshot_ids(snaps: Seq<ArtifactSnapshot>) -> Seq<Seq<char>> {
    Seq::new(snaps.len(), |i: int| snaps[i].artifact_id@)
}

/// Replacing a snapshot of another id leaves the lookup of `id` unchanged.
pub proof fn lemma_snapshot_for_update(s: Seq<ArtifactSnapshot>, i: int, x: ArtifactSnapshot, id: Seq<char>)
    requires
        0 <= i < s.len(),
        s[i].artifact_id@ != id,
        x.artifact_id@ != id,
    ensures
        snapshot_for(s.update(i, x), id) == snapshot_for(s, id),
    decreases s.len(),
{
    let u = s.update(i, x);
    if i == s.len() - 1 {
        assert(u.drop_last() =~= s.drop_last());
    } else {
        assert(u.drop_last() =~= s.drop_last().update(i, x));
        lemma_snapshot_for_update(s.drop_last(), i, x, id);
    }
}

/// With distinct ids, the lookup of an id finds its only snapshot.
pub proof fn lemma_snapshot_for_unique(s: Seq<ArtifactSnapshot>, i: int)
    requires
        0 <= i < s.len(),
        snapshot_ids(s).no_duplicates(),
    ensures
        snapshot_for(s, s[i].artifact_id@) == Some(s[i]),
    decreases s.len(),
{
    if i < s.len() - 1 {
        assert(snapshot_ids(s)[i] == s[i].artifact_id@);
        assert(snapshot_ids(s)[s.len() - 1] == s.last().artifact_id@);
        assert(snapshot_ids(s.drop_last()) =~= snapshot_ids(s).drop_last());
        assert(s.drop_last()[i] == s[i]);
        lemma_snapshot_for_unique(s.drop_last(), i);
    }
}

/// An id without snapshot is not found.
pub proof fn lemma_snapshot_for_absent(s: Seq<ArtifactSnapshot>, id: Seq<char>)
    requires
        !snapshot_ids(s).contains(id),
    ensures
        snapshot_for(s, id) is None,
    decreases s.len(),
{
    if s.len() > 0 {
        assert(snapshot_ids(s)[s.len() - 1] == s.last().artifact_id@);
        assert(snapshot_ids(s.drop_last()) =~= snapshot_ids(s).drop_last());
        lemma_snapshot_for_absent(s.drop_last(), id);
    }
}

/// What the immutability check says of one artifact.
pub open spec fn artifact_verdict(snaps: Seq<ArtifactSnapshot>, a: ArtifactView) -> Result<(), ViolationView> {
    match snapshot_for(snaps, a.artifact_id) {
        Some(s) => if s.content_hash == artifact_digest(a) {
            Ok(())
        } else {
            Err(ViolationView::ArtifactMutated {
                artifact_id: a.artifact_id,
                reason: "Artifact content has changed since creation"@,
            })
        },
        None => Ok(()),
    }
}

/// The first violation among `arts`, in order.
pub open spec fn first_mutation(snaps: Seq<ArtifactSnapshot>, arts: Seq<ArtifactView>) -> Result<(), ViolationView>
    decreases arts.len(),
{
    if arts.len() == 0 {
        Ok(())
    } else {
        match artifact_verdict(snaps, arts[0]) {
            Ok(()) => first_mutation(snaps, arts.drop_first()),
            Err(e) => Err(e),
        }
    }
}

/// Invariant: artifacts never change after their snapshot was recorded.
pub struct ArtifactImmutabilityInvariant {
    snapshots: Vec<ArtifactSnapshot>,
}

impl ArtifactImmutabilityInvariant {
    /// The recorded snapshots.
    pub closed spec fn snapshots_view(&self) -> Seq<ArtifactSnapshot> {
        self.snapshots@
    }

    /// Snapshot ids are distinct.
    pub closed spec fn wf(&self) -> bool {
        snapshot_ids(self.snapshots@).no_duplicates()
    }

    /// The ids of the artifacts with a recorded snapshot.
    pub closed spec fn tracked_ids(&self) -> Set<Seq<char>> {
        snapshot_ids(self.snapshots@).to_set()
    }

    /// An invariant with no snapshots recorded.
    pub fn new() -> (r: Self)
        ensures
            r.wf(),
            r.snapshots_view() == Seq::<ArtifactSnapshot>::empty(),
            r.tracked_ids() == Set::<Seq<char>>::empty(),
    {
        let r = ArtifactImmutabilityInvariant { snapshots: Vec::new() };
        assert(snapshot_ids(r.snapshots@) =~= Seq::<Seq<char>>::empty());
        assert(r.tracked_ids() =~= Set::<Seq<char>>::empty());
        r
    }

    /// Records (or re-records) the snapshot of an artifact.
    pub fn record_artifact(&mut self, artifact: &Artifact)
        requires
            old(self).wf(),
        ensures
            final(self).wf(),
            final(self).tracked_ids() == old(self).tracked_ids().insert(artifact.artifact_id@),
            snapshot_for(final(self).snapshots_view(), artifact.artifact_id@) matches Some(s)
                && s.artifact_id@ == artifact.artifact_id@ && s.content_hash == artifact_digest(artifact@),
            forall|id: Seq<char>| id != artifact.artifact_id@ ==>
                snapshot_for(final(self).snapshots_view(), id) == snapshot_for(old(self).snapshots_view(), id),
    {
        let snapshot = ArtifactSnapshot::from_artifact(artifact);
        let ghost s0 = self.snapshots@;
        let mut i: usize = 0;
        while i < self.snapshots.len()
            invariant
                i <= self.snapshots@.len(),
                self.snapshots@ == s0,
                s0 == old(self).snapshots@,
                snapshot_ids(s0).no_duplicates(),
                snapshot.artifact_id@ == artifact.artifact_id@,
                snapshot.content_hash == artifact_digest(artifact@),
                forall|j: int| 0 <= j < i ==> s0[j].artifact_id@ != artifact.artifact_id@,
            decreases self.snapshots@.len() - i,
        {
            if str_eq(self.snapshots[i].artifact_id.as_str(), artifact.artifact_id.as_str()) {
                self.snapshots.set(i, snapshot);
                proof {
                    let s1 = s0.update(i as int, snapshot);
                    assert(s0[i as int].artifact_id@ == artifact.artifact_id@);
                    assert(snapshot_ids(s1) =~= snapshot_ids(s0));
                    lemma_snapshot_for_unique(s1, i as int);
                    assert forall|id: Seq<char>| id != artifact.artifact_id@ implies
                        snapshot_for(s1, id) == snapshot_for(s0, id) by {
                        lemma_snapshot_for_update(s0, i as int, snapshot, id);
                    }
                    assert(snapshot_ids(s0)[i as int] == artifact.artifact_id@);
                    assert(snapshot_ids(s0).to_set() =~= snapshot_ids(s0).to_set().insert(artifact.artifact_id@));
                }
                return;
            }
            i = i + 1;
        }
        self.snapshots.push(snapshot);
        proof {
            let s1 = s0.push(snapshot);
            assert(s1.drop_last() =~= s0);
            assert(!snapshot_ids(s0).contains(artifact.artifact_id@));
            assert(snapshot_ids(s1) =~= snapshot_ids(s0).push(artifact.artifact_id@));
            snapshot_ids(s0).lemma_push_to_set_commute(artifact.artifact_id@);
            assert(snapshot_ids(s0).no_duplicates());
            assert(snapshot_ids(s1).no_duplicates()) by {
                assert forall|a: int, b: int| 0 <= a < b < snapshot_ids(s1).len() implies
                    snapshot_ids(s1)[a] != snapshot_ids(s1)[b] by {
                    if b == s0.len() {
                        assert(snapshot_ids(s0)[a] == snapshot_ids(s1)[a]);
                    }
                }
            }
            lemma_snapshot_for_absent(s0, artifact.artifact_id@);
        }
    }

    /// Checks one artifact against its recorded snapshot, if any.
    pub fn check_artifact(&self, artifact: &Artifact) -> (r: InvariantResult)
        ensures
            result_view(r) == artifact_verdict(self.snapshots_view(), artifact@),
    {
        let mut i = self.snapshots.len();
        assert(self.snapshots@.take(i as int) =~= self.snapshots@);
        while i > 0
            invariant
                i <= self.snapshots@.len(),
                snapshot_for(self.snapshots@, artifact.artifact_id@)
                    == snapshot_for(self.snapshots@.take(i as int), artifact.artifact_id@),
            decreases i,
        {
            let ghost pre = self.snapshots@.take(i as int);
            assert(pre.drop_last() =~= self.snapshots@.take(i - 1));
            if str_eq(self.snapshots[i - 1].artifact_id.as_str(), artifact.artifact_id.as_str()) {
                if !self.snapshots[i - 1].matches(artifact) {
                    return Err(InvariantViolation::ArtifactMutated {
                        artifact_id: artifact.artifact_id.clone(),
                        reason: owned("Artifact content has changed since creation"),
                    });
                }
                return Ok(());
            }
            i = i - 1;
        }
        Ok(())
    }

    /// Forgets every snapshot.
    pub fn clear(&mut self)
        ensures
            final(self).wf(),
            final(self).snapshots_view() == Seq::<ArtifactSnapshot>::empty(),
            final(self).tracked_ids() == Set::<Seq<char>>::empty(),
    {
        self.snapshots.clear();
        assert(snapshot_ids(self.snapshots@) =~= Seq::<Seq<char>>::empty());
        assert(self.tracked_ids() =~= Set::<Seq<char>>::empty());
    }

    /// The number of artifacts with a recorded snapshot.
    pub fn tracked_count(&self) -> (r: usize)
        requires
            self.wf(),
        ensures
            r == self.tracked_ids().len(),
    {
        proof {
            snapshot_ids(self.snapshots@).unique_seq_to_set();
        }
        self.snapshots.len()
    }
}

impl Default for ArtifactImmutabilityInvariant {
    fn default() -> (r: Self)
        ensures
            r.wf(),
            r.snapshots_view() == Seq::<ArtifactSnapshot>::empty(),
    {
        Self::new()
    }
}

impl Invariant<Task> for ArtifactImmutabilityInvariant {
    open spec fn verdict(&self, value: Task) -> Result<(), ViolationView> {
        first_mutation(self.snapshots_view(), artifacts_of(value@))
    }

    fn check(&self, task: &Task) -> (r: InvariantResult) {
        match &task.artifacts {
            Some(arts) => {
                let ghost av = artifacts_of(task@);
                assert(av == crate::domain::artifacts_view(arts@));
                assert(av.skip(0) =~= av);
                let mut i: usize = 0;
                while i < arts.len()
                    invariant
                        i <= arts@.len(),
                        av == crate::domain::artifacts_view(arts@),
                        av == artifacts_of(task@),
                        first_mutation(self.snapshots_view(), av)
                            == first_mutation(self.snapshots_view(), av.skip(i as int)),
                    decreases arts@.len() - i,
                {
                    let r = self.check_artifact(&arts[i]);
                    assert(av.skip(i as int)[0] == arts@[i as int]@);
                    assert(av.skip(i as int).drop_first() =~= av.skip(i + 1));
                    if r.is_err() {
                        assert(first_mutation(self.snapshots_view(), av.skip(i as int))
                            == artifact_verdict(self.snapshots_view(), arts@[i as int]@));
                        return r;
                    }
                    i = i + 1;
                }
                assert(av.skip(i as int) =~= Seq::<ArtifactView>::empty());
                Ok(())
            },
            None => Ok(()),
        }
    }

    fn name(&self) -> (r: &str)
        ensures
            r@ == "artifact_immutability"@,
    {
        "artifact_immutability"
    }

    fn description(&self) -> (r: &str)
        ensures
            r@ == "Ensures artifacts are never modified after creation"@,
    {
        "Ensures artifacts are never modified after creation"
    }
}

/// The artifact immutability invariant that records what it checks:
/// `check_and_record` checks a task and then records a snapshot of each of
/// its artifacts, so that a later change to one of them is reported.
/// `check` (of the `Invariant` trait, which cannot change the invariant)
/// checks without recording.
pub struct RecordingArtifactInvariant {
    inner: ArtifactImmutabilityInvariant,
}

impl RecordingArtifactInvariant {
    /// The recorded snapshots.
    pub closed spec fn snapshots_view(&self) -> Seq<ArtifactSnapshot> {
        self.inner.snapshots_view()
    }

    /// Snapshot ids are distinct.
    pub closed spec fn wf(&self) -> bool {
        self.inner.wf()
    }

    /// The ids of the artifacts with a recorded snapshot.
    pub closed spec fn tracked_ids(&self) -> Set<Seq<char>> {
        self.inner.tracked_ids()
    }

    /// An invariant with no snapshots recorded.
    pub fn new() -> (r: Self)
        ensures
            r.wf(),
            r.tracked_ids() == Set::<Seq<char>>::empty(),
    {
        RecordingArtifactInvariant { inner: ArtifactImmutabilityInvariant::new() }
    }

    /// The number of artifacts with a recorded snapshot.
    pub fn tracked_count(&self) -> (r: usize)
        requires
            self.wf(),
        ensures
            r == self.tracked_ids().len(),
    {
        self.inner.tracked_count()
    }

    /// Forgets every snapshot.
    pub fn clear(&mut self)
        ensures
            final(self).wf(),
            final(self).tracked_ids() == Set::<Seq<char>>::empty(),
    {
        self.inner.clear();
    }

    /// Checks `task` like `check`, then, when it passes, records the snapshot
    /// of each of its artifacts, so that a later change to one of them is
    /// reported. A task that fails the check records nothing.
    pub fn check_and_record(&mut self, task: &Task) -> (r: InvariantResult)
        requires
            old(self).wf(),
        ensures
            final(self).wf(),
            result_view(r) == first_mutation(old(self).snapshots_view(), artifacts_of(task@)),
            r is Err ==> final(self).snapshots_view() == old(self).snapshots_view(),
            r is Ok ==> final(self).tracked_ids() == old(self).tracked_ids().union(
                artifact_ids(artifacts_of(task@)).to_set()),
    {
        let r = self.inner.check(task);
        if r.is_err() {
            return r;
        }
        match &task.artifacts {
            Some(arts) => {
                let ghost av = artifacts_of(task@);
                let ghost t0 = self.tracked_ids();
                assert(av == crate::domain::artifacts_view(arts@));
                assert(artifact_ids(av.take(0)).to_set() =~= Set::<Seq<char>>::empty());
                assert(t0.union(Set::<Seq<char>>::empty()) =~= t0);
                let mut i: usize = 0;
                while i < arts.len()
                    invariant
                        i <= arts@.len(),
                        av == crate::domain::artifacts_view(arts@),
                        av == artifacts_of(task@),
                        self.wf(),
                        t0 == old(self).tracked_ids(),
                        self.tracked_ids() == t0.union(artifact_ids(av.take(i as int)).to_set()),
                    decreases arts@.len() - i,
                {
                    self.inner.record_artifact(&arts[i]);
                    proof {
                        assert(av[i as int] == arts@[i as int]@);
                        assert(av.take(i + 1) =~= av.take(i as int).push(av[i as int]));
                        assert(artifact_ids(av.take(i + 1)) =~= artifact_ids(av.take(i as int)).push(
                            av[i as int].artifact_id));
                        artifact_ids(av.take(i as int)).lemma_push_to_set_commute(av[i as int].artifact_id);
                        assert(self.tracked_ids() =~= t0.union(artifact_ids(av.take(i + 1)).to_set()));
                    }
                    i = i + 1;
                }
                assert(av.take(i as int) =~= av);
            },
            None => {
                assert(artifact_ids(artifacts_of(task@)).to_set() =~= Set::<Seq<char>>::empty());
                assert(self.tracked_ids().union(Set::<Seq<char>>::empty()) =~= self.tracked_ids());
            },
        }
        r
    }
}

/// The ids of a sequence of artifacts.
pub open spec fn artifact_ids(arts: Seq<ArtifactView>) -> Seq<Seq<char>> {
    Seq::new(arts.len(), |i: int| arts[i].artifact_id)
}


impl Default for RecordingArtifactInvariant {
    fn default() -> (r: Self)
        ensures
            r.wf(),
            r.tracked_ids() == Set::<Seq<char>>::empty(),
    {
        Self::new()
    }
}

impl Invariant<Task> for RecordingArtifactInvariant {
    open spec fn verdict(&self, value: Task) -> Result<(), ViolationView> {
        first_mutation(self.snapshots_view(), artifacts_of(value@))
    }

    fn check(&self, task: &Task) -> (r: InvariantResult) {
        self.inner.check(task)
    }

    fn name(&self) -> (r: &str)
        ensures
            r@ == "recording_artifact_immutability"@,
    {
        "recording_artifact_immutability"
    }

    fn description(&self) -> (r: &str)
        ensures
            r@ == "Ensures artifacts are never modified after creation (with automatic recording)"@,
    {
        "Ensures artifacts are never modified after creation (with automatic recording)"
    }
}

} // verus!
