use a2a_rs::artifacts::{ArtifactStore, ArtifactStoreError, ContentHash, InMemoryArtifactStore};
use a2a_rs::domain::{Artifact, Part};

fn create_test_artifact(id: &str, parts: Vec<Part>) -> Artifact {
    Artifact {
        artifact_id: id.to_string(),
        name: Some(format!("Test Artifact {}", id)),
        description: Some("A test artifact".to_string()),
        parts,
    }
}

#[test]
fn test_append_and_retrieve() {
    let mut store = InMemoryArtifactStore::new();
    let artifact = create_test_artifact("art-1", vec![Part::text("Hello".to_string())]);

    let hash = store.append("task-1", artifact.clone()).unwrap();

    let stored = store.get_by_hash(&hash).unwrap();
    assert_eq!(stored.artifact.artifact_id, "art-1");
    assert_eq!(stored.task_id, "task-1");
    assert!(!stored.committed);

    let stored = store.get_by_id("task-1", "art-1").unwrap();
    assert_eq!(stored.artifact.artifact_id, "art-1");
}

#[test]
fn test_commit_artifact() {
    let mut store = InMemoryArtifactStore::new();
    let artifact = create_test_artifact("art-1", vec![Part::text("Hello".to_string())]);

    store.append("task-1", artifact).unwrap();
    store.commit("task-1", "art-1").unwrap();

    let stored = store.get_by_id("task-1", "art-1").unwrap();
    assert!(stored.committed);

    let result = store.commit("task-1", "art-1");
    assert!(matches!(result, Err(ArtifactStoreError::ArtifactAlreadyCommitted { .. })));
}

#[test]
fn test_commit_task() {
    let mut store = InMemoryArtifactStore::new();

    store
        .append("task-1", create_test_artifact("art-1", vec![Part::text("One".to_string())]))
        .unwrap();
    store
        .append("task-1", create_test_artifact("art-2", vec![Part::text("Two".to_string())]))
        .unwrap();

    store.commit_task("task-1").unwrap();

    let artifacts = store.list_by_task("task-1").unwrap();
    assert_eq!(artifacts.len(), 2);
    assert!(artifacts.iter().all(|a| a.committed));

    let task_artifacts = store.get_task_artifacts("task-1").unwrap();
    assert!(task_artifacts.finalized);
    assert!(task_artifacts.finalized_at.is_some());

    let result = store.append(
        "task-1",
        create_test_artifact("art-3", vec![Part::text("Three".to_string())]),
    );
    assert!(matches!(result, Err(ArtifactStoreError::TaskAlreadyFinalized { .. })));
}

#[test]
fn test_list_by_task() {
    let mut store = InMemoryArtifactStore::new();

    store
        .append("task-1", create_test_artifact("art-1", vec![Part::text("One".to_string())]))
        .unwrap();
    store
        .append("task-1", create_test_artifact("art-2", vec![Part::text("Two".to_string())]))
        .unwrap();
    store
        .append("task-2", create_test_artifact("art-3", vec![Part::text("Three".to_string())]))
        .unwrap();

    let artifacts = store.list_by_task("task-1").unwrap();
    assert_eq!(artifacts.len(), 2);
    assert_eq!(artifacts[0].artifact.artifact_id, "art-1");
    assert_eq!(artifacts[1].artifact.artifact_id, "art-2");

    let artifacts = store.list_by_task("task-2").unwrap();
    assert_eq!(artifacts.len(), 1);
    assert_eq!(artifacts[0].artifact.artifact_id, "art-3");
}

#[test]
fn test_content_hash() {
    let artifact1 = create_test_artifact("art-1", vec![Part::text("Hello".to_string())]);
    let artifact2 = create_test_artifact("art-1", vec![Part::text("Hello".to_string())]);
    let artifact3 = create_test_artifact("art-1", vec![Part::text("World".to_string())]);

    let hash1 = ContentHash::from_artifact(&artifact1).unwrap();
    let hash2 = ContentHash::from_artifact(&artifact2).unwrap();
    let hash3 = ContentHash::from_artifact(&artifact3).unwrap();

    assert_eq!(hash1, hash2);
    assert_ne!(hash1, hash3);
}

#[test]
fn test_immutability() {
    let mut store = InMemoryArtifactStore::new();
    let artifact = create_test_artifact("art-1", vec![Part::text("Hello".to_string())]);

    let hash1 = store.append("task-1", artifact.clone()).unwrap();
    store.commit("task-1", "art-1").unwrap();

    let artifact2 = create_test_artifact("art-1", vec![Part::text("Hello".to_string())]);
    let hash2 = store.append("task-2", artifact2).unwrap();

    assert_eq!(hash1, hash2);
}

#[test]
fn content_hash_is_sha256_of_the_json_text() {
    let artifact = Artifact {
        artifact_id: "a".to_string(),
        name: None,
        description: None,
        parts: vec![],
    };
    // SHA-256 of {"artifactId":"a","parts":[]}
    let h = ContentHash::from_artifact(&artifact).unwrap();
    assert_eq!(h.as_str().len(), 64);
    assert!(h.as_str().chars().all(|c| c.is_ascii_hexdigit() && !c.is_ascii_uppercase()));
    let part_hash = ContentHash::from_part(&Part::text("x".to_string())).unwrap();
    assert_ne!(part_hash.as_str(), h.as_str());
    assert_eq!(ContentHash::new("abc".to_string()).as_str(), "abc");
}

#[test]
fn store_errors() {
    let mut store = InMemoryArtifactStore::default();
    assert!(matches!(
        store.commit("t", "missing"),
        Err(ArtifactStoreError::ArtifactNotFound { ref artifact_id }) if artifact_id == "missing"
    ));
    assert!(matches!(store.commit_task("t"), Err(ArtifactStoreError::TaskNotFound { .. })));
    assert!(matches!(store.list_by_task("t"), Err(ArtifactStoreError::TaskNotFound { .. })));
    assert!(matches!(store.get_task_artifacts("t"), Err(ArtifactStoreError::TaskNotFound { .. })));
    assert!(store.get_by_id("t", "a").is_err());
    let h = ContentHash::new("nope".to_string());
    assert!(matches!(
        store.get_by_hash(&h),
        Err(ArtifactStoreError::ArtifactNotFound { ref artifact_id }) if artifact_id == "nope"
    ));
    store.append("t", create_test_artifact("a", vec![])).unwrap();
    store.commit_task("t").unwrap();
    let err = store.commit_task("t").unwrap_err();
    assert_eq!(err.message(), "Task t is already finalized");
    assert_eq!(
        ArtifactStoreError::ArtifactAlreadyCommitted { artifact_id: "x".to_string() }.message(),
        "Artifact x is already committed and cannot be modified"
    );
}

#[test]
fn commit_marks_the_first_artifact_of_the_id() {
    let mut store = InMemoryArtifactStore::new();
    store.append("t", create_test_artifact("a", vec![Part::text("1".to_string())])).unwrap();
    store.append("t", create_test_artifact("a", vec![Part::text("2".to_string())])).unwrap();
    store.commit("t", "a").unwrap();
    let listed = store.list_by_task("t").unwrap();
    assert!(listed[0].committed);
    assert!(!listed[1].committed);
    // The index points at the latest append, which is the one committed in the hash store.
    assert!(store.get_by_id("t", "a").unwrap().committed);
    assert!(matches!(&store.get_by_id("t", "a").unwrap().artifact.parts[..], [Part::Text { text }] if text == "2"));
}

#[test]
fn re_appending_equal_content_leaves_a_committed_entry_alone() {
    let mut store = InMemoryArtifactStore::new();
    let artifact = create_test_artifact("art-1", vec![Part::text("Hello".to_string())]);
    let hash = store.append("task-1", artifact.clone()).unwrap();
    store.commit("task-1", "art-1").unwrap();

    let again = store.append("task-2", artifact.clone()).unwrap();
    assert_eq!(again, hash);
    let stored = store.get_by_hash(&hash).unwrap();
    assert!(stored.committed);
    assert_eq!(stored.task_id, "task-1");
    let by_id = store.get_by_id("task-2", "art-1").unwrap();
    assert_eq!(by_id.content_hash, hash);
}
