//! Checkpoints that pause a graph run and let it resume later: the
//! records kept for them and the keys under which they are stored.

use vstd::prelude::*;

verus! {

/// Errors of pausing and resuming.
#[derive(Debug, Clone, PartialEq, Eq)]
pub enum CheckpointError {
    Storage(String),
    Serialization(String),
    MissingCheckpoint(String),
}

impl CheckpointError {
    /// The error's message text.
    pub fn message(&self) -> (r: String)
        ensures
            match self {
                CheckpointError::Storage(m) => r@ == "checkpoint storage failed: "@ + m@,
                CheckpointError::Serialization(m) => r@ == "checkpoint serialization failed: "@
                    + m@,
                CheckpointError::MissingCheckpoint(m) => r@ == "checkpoint not found: "@ + m@,
            },
    {
        match self {
            CheckpointError::Storage(m) => {
                let mut r = String::from_str("checkpoint storage failed: ");
                r.append(m.as_str());
                r
            },
            CheckpointError::Serialization(m) => {
                let mut r = String::from_str("checkpoint serialization failed: ");
                r.append(m.as_str());
                r
            },
            CheckpointError::MissingCheckpoint(m) => {
                let mut r = String::from_str("checkpoint not found: ");
                r.append(m.as_str());
                r
            },
        }
    }
}

/// What a paused run leaves behind: the checkpoint's id, the node to
/// resume from and the state at the pause.
#[derive(Debug, Clone, PartialEq)]
pub struct CheckpointRecord<T> {
    pub checkpoint_id: String,
    pub resume_from: String,
    pub state: T,
}

/// The storage key of a checkpoint: `graph_id:checkpoint_id`.
pub open spec fn storage_key_of(graph_id: Seq<char>, checkpoint_id: Seq<char>) -> Seq<char> {
    graph_id + seq![':'] + checkpoint_id
}

/// Pauses and resumes the runs of one graph on a persistence backend.
#[derive(Debug, Clone)]
pub struct CheckpointGate<B> {
    backend: B,
    graph_id: String,
}

impl<B> CheckpointGate<B> {
    /// The graph whose checkpoints this gate keeps.
    pub closed spec fn graph(&self) -> Seq<char> {
        self.graph_id@
    }

    /// The backend the checkpoints are kept in.
    pub closed spec fn store(&self) -> B {
        self.backend
    }

    pub fn new(graph_id: &str, backend: B) -> (g: Self)
        ensures
            g.graph() == graph_id@,
            g.store() == backend,
    {
        CheckpointGate { backend, graph_id: String::from_str(graph_id) }
    }

    pub fn backend(&self) -> (b: &B)
        ensures
            *b == self.store(),
    {
        &self.backend
    }

    /// The key under which checkpoint `checkpoint_id` is stored.
    pub fn storage_key(&self, checkpoint_id: &str) -> (k: String)
        ensures
            k@ == storage_key_of(self.graph(), checkpoint_id@),
    {
        let mut key = self.graph_id.clone();
        key.append(":");
        key.append(checkpoint_id);
        proof {
            reveal_strlit(":");
        }
        key
    }

    /// The record a pause leaves behind.
    pub fn record<T>(&self, checkpoint_id: &str, resume_from: &str, state: T) -> (r:
        CheckpointRecord<T>)
        ensures
            r.checkpoint_id@ == checkpoint_id@,
            r.resume_from@ == resume_from@,
            r.state == state,
    {
        CheckpointRecord {
            checkpoint_id: String::from_str(checkpoint_id),
            resume_from: String::from_str(resume_from),
            state,
        }
    }

    /// What a resume makes of what the backend held under the
    /// checkpoint's key: nothing there means the checkpoint is missing.
    pub fn resume_loaded<V>(&self, checkpoint_id: &str, loaded: Option<V>) -> (r: Result<
        V,
        CheckpointError,
    >)
        ensures
            match loaded {
                Some(v) => r == Ok::<V, CheckpointError>(v),
                None => r matches Err(CheckpointError::MissingCheckpoint(id)) && id@
                    == checkpoint_id@,
            },
    {
        match loaded {
            Some(v) => Ok(v),
            None => Err(CheckpointError::MissingCheckpoint(String::from_str(checkpoint_id))),
        }
    }
}

/// Two checkpoints of one graph never share a storage key.
pub proof fn law_storage_keys_distinct(graph_id: Seq<char>, a: Seq<char>, b: Seq<char>)
    requires
        a != b,
    ensures
        storage_key_of(graph_id, a) != storage_key_of(graph_id, b),
{
    let ka = storage_key_of(graph_id, a);
    let kb = storage_key_of(graph_id, b);
    let n: int = graph_id.len() as int + 1;
    if ka == kb {
        assert(ka.skip(n) =~= a);
        assert(kb.skip(n) =~= b);
    }
}

/// Two checkpoints never share a storage key across graphs either, as
/// long as graph ids hold no `:`.
pub proof fn law_storage_keys_distinct_across_graphs(
    graph_a: Seq<char>,
    checkpoint_a: Seq<char>,
    graph_b: Seq<char>,
    checkpoint_b: Seq<char>,
)
    requires
        graph_a != graph_b || checkpoint_a != checkpoint_b,
        !graph_a.contains(':'),
        !graph_b.contains(':'),
    ensures
        storage_key_of(graph_a, checkpoint_a) != storage_key_of(graph_b, checkpoint_b),
{
    let ka = storage_key_of(graph_a, checkpoint_a);
    let kb = storage_key_of(graph_b, checkpoint_b);
    if ka == kb {
        if graph_a.len() < graph_b.len() {
            assert(ka[graph_a.len() as int] == ':');
            assert(kb[graph_a.len() as int] == graph_b[graph_a.len() as int]);
            assert(graph_b.contains(graph_b[graph_a.len() as int]));
        } else if graph_b.len() < graph_a.len() {
            assert(kb[graph_b.len() as int] == ':');
            assert(ka[graph_b.len() as int] == graph_a[graph_b.len() as int]);
            assert(graph_a.contains(graph_a[graph_b.len() as int]));
        } else {
            assert(graph_a =~= graph_b) by {
                assert forall|i: int| 0 <= i < graph_a.len() implies graph_a[i] == graph_b[i] by {
                    assert(ka[i] == graph_a[i]);
                    assert(kb[i] == graph_b[i]);
                }
            }
            law_storage_keys_distinct(graph_a, checkpoint_a, checkpoint_b);
        }
    }
}

/// On a backend that keeps one value per key, resuming a checkpoint reads
/// back what pausing it stored, and pausing one checkpoint leaves every
/// other checkpoint of the graph as it was.
pub proof fn law_resume_reads_back_pause<V>(
    graph_id: Seq<char>,
    stored: Map<Seq<char>, V>,
    checkpoint_id: Seq<char>,
    value: V,
    other: Seq<char>,
)
    ensures
        stored.insert(storage_key_of(graph_id, checkpoint_id), value).get(
            storage_key_of(graph_id, checkpoint_id),
        ) == Some(value),
        other != checkpoint_id ==> stored.insert(storage_key_of(graph_id, checkpoint_id), value).get(
            storage_key_of(graph_id, other),
        ) == stored.get(storage_key_of(graph_id, other)),
{
    if other != checkpoint_id {
        law_storage_keys_distinct(graph_id, checkpoint_id, other);
    }
}

/// Entry points for pausing and resuming graph runs.
#[derive(Debug, Clone, Copy, Default)]
pub struct CheckpointOrchestrator;

} // verus!
