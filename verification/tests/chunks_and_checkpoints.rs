use orchustr::anchor::{chunk_text, decimal_chars, AnchorError};
use orchustr::checkpoint::{CheckpointError, CheckpointGate, CheckpointRecord};

#[test]
fn chunks_group_words_and_number_ids() {
    let chunks = chunk_text(
        "doc-1",
        "orchustr builds reliable agents with memory and retrieval",
        3,
    );
    let ids: Vec<&str> = chunks.iter().map(|c| c.id.as_str()).collect();
    let texts: Vec<&str> = chunks.iter().map(|c| c.text.as_str()).collect();
    assert_eq!(ids, vec!["doc-1:0", "doc-1:1", "doc-1:2"]);
    assert_eq!(
        texts,
        vec!["orchustr builds reliable", "agents with memory", "and retrieval"]
    );
}

#[test]
fn chunking_collapses_whitespace_and_treats_zero_size_as_one() {
    let chunks = chunk_text("d", "  alpha\t\tbeta\n gamma\u{3000}", 0);
    let texts: Vec<&str> = chunks.iter().map(|c| c.text.as_str()).collect();
    assert_eq!(texts, vec!["alpha", "beta", "gamma"]);
    assert_eq!(chunks[2].id, "d:2");
}

#[test]
fn chunking_empty_text_gives_no_chunks() {
    assert!(chunk_text("d", "   \n ", 4).is_empty());
    assert!(chunk_text("d", "", 4).is_empty());
}

#[test]
fn chunk_ids_count_past_ten() {
    let words: Vec<String> = (0..12).map(|i| format!("w{i}")).collect();
    let chunks = chunk_text("x", &words.join(" "), 1);
    assert_eq!(chunks.len(), 12);
    assert_eq!(chunks[11].id, "x:11");
    assert_eq!(chunks[11].text, "w11");
}

#[test]
fn decimal_digits() {
    assert_eq!(decimal_chars(0), vec!['0']);
    assert_eq!(decimal_chars(907), vec!['9', '0', '7']);
}

#[test]
fn anchor_error_message() {
    assert_eq!(
        AnchorError::VectorStore("down".to_owned()).message(),
        "vector store operation failed: down"
    );
}

#[test]
fn storage_key_joins_graph_and_checkpoint() {
    let gate = CheckpointGate::new("graph-a", ());
    assert_eq!(gate.storage_key("approval-1"), "graph-a:approval-1");
    assert_ne!(gate.storage_key("a"), gate.storage_key("b"));
    let other = CheckpointGate::new("graph-b", ());
    assert_ne!(gate.storage_key("approval-1"), other.storage_key("approval-1"));
    let colon = CheckpointGate::new("a:b", ());
    let plain = CheckpointGate::new("a", ());
    assert_eq!(colon.storage_key("c"), plain.storage_key("b:c"));
}

#[test]
fn resume_reports_missing_checkpoints() {
    let gate = CheckpointGate::new("graph-a", ());
    let result: Result<u8, CheckpointError> = gate.resume_loaded("missing", None);
    assert_eq!(
        result,
        Err(CheckpointError::MissingCheckpoint("missing".to_owned()))
    );
    assert_eq!(gate.resume_loaded("here", Some(5u8)), Ok(5));
}

#[test]
fn pause_record_keeps_its_parts() {
    let gate = CheckpointGate::new("graph-a", ());
    let record = gate.record("approval-1", "publish", false);
    assert_eq!(record.checkpoint_id, "approval-1");
    assert_eq!(record.resume_from, "publish");
    assert!(!record.state);
}

#[test]
fn checkpoint_error_messages() {
    assert_eq!(
        CheckpointError::MissingCheckpoint("m".to_owned()).message(),
        "checkpoint not found: m"
    );
    assert_eq!(
        CheckpointError::Storage("s".to_owned()).message(),
        "checkpoint storage failed: s"
    );
    assert_eq!(
        CheckpointError::Serialization("e".to_owned()).message(),
        "checkpoint serialization failed: e"
    );
}

#[derive(Debug, Clone, PartialEq, Eq)]
struct CheckpointState {
    approved: bool,
}

#[test]
fn pause_and_resume_round_trip_state() {
    let mut backend: std::collections::HashMap<String, CheckpointRecord<CheckpointState>> =
        std::collections::HashMap::new();
    let gate = CheckpointGate::new("graph-a", ());
    let record = gate.record("approval-1", "publish", CheckpointState { approved: false });
    backend.insert(gate.storage_key("approval-1"), record);
    let loaded = backend.get(&gate.storage_key("approval-1")).cloned();
    let record = gate.resume_loaded("approval-1", loaded).unwrap();
    assert_eq!(record.resume_from, "publish");
    assert!(!record.state.approved);
    let other = backend.get(&gate.storage_key("approval-2")).cloned();
    assert_eq!(
        gate.resume_loaded("approval-2", other),
        Err(CheckpointError::MissingCheckpoint("approval-2".to_owned()))
    );
}
