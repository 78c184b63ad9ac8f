use a2a_rs::domain::{Artifact, Part, Task};
use a2a_rs::invariants::artifact::{ArtifactImmutabilityInvariant, ArtifactSnapshot, RecordingArtifactInvariant};
use a2a_rs::invariants::{Invariant, InvariantViolation};

fn create_test_artifact(id: &str, content: &str) -> Artifact {
    Artifact {
        artifact_id: id.to_string(),
        name: Some("test.txt".to_string()),
        description: None,
        parts: vec![Part::text(content.to_string())],
    }
}

#[test]
fn test_artifact_snapshot_creation() {
    let artifact = create_test_artifact("art-1", "Hello");
    let snapshot = ArtifactSnapshot::from_artifact(&artifact);
    assert_eq!(snapshot.artifact_id, "art-1");
    assert_ne!(snapshot.content_hash, 0);
}

#[test]
fn test_artifact_snapshot_matches() {
    let artifact = create_test_artifact("art-1", "Hello");
    let snapshot = ArtifactSnapshot::from_artifact(&artifact);
    assert!(snapshot.matches(&artifact));
}

#[test]
fn test_artifact_snapshot_detects_change() {
    let artifact1 = create_test_artifact("art-1", "Hello");
    let artifact2 = create_test_artifact("art-1", "World");
    let snapshot = ArtifactSnapshot::from_artifact(&artifact1);
    assert!(!snapshot.matches(&artifact2));
}

#[test]
fn artifact_test_empty_task() {
    let invariant = ArtifactImmutabilityInvariant::new();
    let task = Task::new("task-1".to_string(), "ctx-1".to_string());
    assert!(invariant.check(&task).is_ok());
}

#[test]
fn test_task_with_new_artifact() {
    let invariant = ArtifactImmutabilityInvariant::new();
    let mut task = Task::new("task-1".to_string(), "ctx-1".to_string());
    let artifact = create_test_artifact("art-1", "Hello");
    task.add_artifact(artifact);
    assert!(invariant.check(&task).is_ok());
}

#[test]
fn test_artifact_immutability_violation() {
    let mut invariant = ArtifactImmutabilityInvariant::new();
    let mut task = Task::new("task-1".to_string(), "ctx-1".to_string());
    let artifact = create_test_artifact("art-1", "Hello");
    task.add_artifact(artifact.clone());
    invariant.record_artifact(&artifact);
    assert!(invariant.check(&task).is_ok());
    task.artifacts = Some(vec![create_test_artifact("art-1", "World")]);
    let result = invariant.check(&task);
    assert!(result.is_err());
    assert!(matches!(result.unwrap_err(), InvariantViolation::ArtifactMutated { .. }));
}

#[test]
fn test_multiple_artifacts() {
    let mut invariant = ArtifactImmutabilityInvariant::new();
    let mut task = Task::new("task-1".to_string(), "ctx-1".to_string());
    let art1 = create_test_artifact("art-1", "Hello");
    let art2 = create_test_artifact("art-2", "World");
    task.add_artifact(art1.clone());
    task.add_artifact(art2.clone());
    invariant.record_artifact(&art1);
    invariant.record_artifact(&art2);
    assert!(invariant.check(&task).is_ok());
    assert_eq!(invariant.tracked_count(), 2);
}

#[test]
fn test_clear_snapshots() {
    let mut invariant = ArtifactImmutabilityInvariant::new();
    let artifact = create_test_artifact("art-1", "Hello");
    invariant.record_artifact(&artifact);
    assert_eq!(invariant.tracked_count(), 1);
    invariant.clear();
    assert_eq!(invariant.tracked_count(), 0);
}

#[test]
fn test_different_artifacts_same_id() {
    let mut invariant = ArtifactImmutabilityInvariant::new();
    let art1 = create_test_artifact("art-1", "Hello");
    let art2 = create_test_artifact("art-1", "World");
    invariant.record_artifact(&art1);
    assert!(invariant.check_artifact(&art1).is_ok());
    assert!(invariant.check_artifact(&art2).is_err());
}

#[test]
fn snapshot_hash_depends_on_name_too() {
    let a = create_test_artifact("art-1", "Hello");
    let mut b = create_test_artifact("art-1", "Hello");
    b.name = Some("other.txt".to_string());
    assert_ne!(ArtifactSnapshot::from_artifact(&a).content_hash, ArtifactSnapshot::from_artifact(&b).content_hash);
}

#[test]
fn recording_invariant_starts_empty() {
    let mut inv = RecordingArtifactInvariant::new();
    assert_eq!(inv.tracked_count(), 0);
    inv.clear();
    let task = Task::new("t".to_string(), "c".to_string());
    assert!(inv.check(&task).is_ok());
}

#[test]
fn recording_invariant_records_what_it_checks() {
    let mut inv = RecordingArtifactInvariant::new();
    let mut task = Task::new("task-1".to_string(), "ctx-1".to_string());
    task.artifacts = Some(vec![create_test_artifact("art-1", "Hello")]);
    assert!(inv.check_and_record(&task).is_ok());
    assert_eq!(inv.tracked_count(), 1);
    let mut changed = Task::new("task-1".to_string(), "ctx-1".to_string());
    changed.artifacts = Some(vec![create_test_artifact("art-1", "Goodbye")]);
    assert!(inv.check(&changed).is_err());
    assert!(inv.check_and_record(&changed).is_err());
    assert_eq!(inv.tracked_count(), 1);
    assert!(inv.check(&task).is_ok());
}
