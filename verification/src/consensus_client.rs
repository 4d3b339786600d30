//! Data exchanged with the consensus service, and how a task is derived from
//! an agreement.  The HTTP exchanges themselves are done by the application.

use vstd::prelude::*;
use crate::clock::Timestamp;
use crate::keyed::{keyed_map, lemma_keyed_map, position_of_key, remove_key, unique_keys, upsert, has_key};
use crate::task_executor::{bytes_of, encode_words};
use crate::text::{decimal, joined, same_text, u64_to_decimal};
use crate::types::{ConsensusTask, TaskResult, TaskType};

verus! {

/// Consensus statistics reported by the service.  The rates and averages
/// are floating-point numbers held as the bit patterns of their `f64` values.
#[derive(Clone, Copy, Debug, PartialEq, Eq, Structural)]
pub struct ConsensusStats {
    pub total_providers: usize,
    pub active_providers: usize,
    pub total_tasks: usize,
    pub completed_tasks: usize,
    pub consensus_success_rate: u64,
    pub avg_task_execution_time_ms: u64,
    pub detected_cheating_events: usize,
    pub last_updated: Timestamp,
}

/// An activity created by the service for an agreement.
#[derive(Clone, Debug)]
pub struct Activity {
    pub activity_id: String,
    pub agreement_id: String,
}

/// Settings of the service client.
#[derive(Clone, Debug)]
pub struct ClientConfig {
    pub server_endpoint: String,
    pub request_timeout_seconds: u64,
    pub max_retries: usize,
    pub retry_interval_ms: u64,
    pub health_check_interval_seconds: u64,
}

impl Default for ClientConfig {
    /// Endpoint `http://localhost:7465`, 30 s request timeout, 3 retries
    /// 1000 ms apart, health checks every 60 s.
    fn default() -> (c: Self)
        ensures
            c.server_endpoint@ == "http://localhost:7465"@,
            c.request_timeout_seconds == 30,
            c.max_retries == 3,
            c.retry_interval_ms == 1000,
            c.health_check_interval_seconds == 60,
    {
        ClientConfig {
            server_endpoint: String::from_str("http://localhost:7465"),
            request_timeout_seconds: 30,
            max_retries: 3,
            retry_interval_ms: 1000,
            health_check_interval_seconds: 60,
        }
    }
}

/// The timeout of tasks taken from agreements, in seconds.
pub const AGREEMENT_TASK_TIMEOUT_SECONDS: u64 = 300;

/// The task type an agreement's demand asks for: named by `name`, sized by
/// `size` (matrix multiplication, default 2; vector addition, default 3) or
/// `model_size` (simple inference, default 50); an unknown name asks for a
/// 2 x 2 matrix multiplication.
pub open spec fn demanded_task_type(name: Seq<char>, size: Option<u64>, model_size: Option<u64>) -> TaskType {
    if name == "matrix_multiplication"@ {
        TaskType::MatrixMultiplication { size: (match size { Some(s) => s, None => 2 }) as usize }
    } else if name == "vector_addition"@ {
        TaskType::VectorAddition { size: (match size { Some(s) => s, None => 3 }) as usize }
    } else if name == "simple_inference"@ {
        TaskType::SimpleInference { model_size: (match model_size { Some(s) => s, None => 50 }) as usize }
    } else {
        TaskType::MatrixMultiplication { size: 2 }
    }
}

/// The size of a demanded task is read from the field for its type: the
/// `size` field for matrix multiplication and vector addition (defaults 2 and
/// 3), the `model_size` field for simple inference (default 50); the other
/// field does not matter, and an unknown type name asks for a 2 x 2 matrix
/// multiplication.
pub proof fn lemma_demanded_sizes(name: Seq<char>, s: u64, size: Option<u64>, model_size: Option<u64>, other: Option<u64>)
    ensures
        demanded_task_type("vector_addition"@, Some(s), model_size) == (TaskType::VectorAddition { size: s as usize }),
        demanded_task_type("matrix_multiplication"@, Some(s), model_size) == (TaskType::MatrixMultiplication { size: s as usize }),
        demanded_task_type("simple_inference"@, size, Some(s)) == (TaskType::SimpleInference { model_size: s as usize }),
        demanded_task_type("vector_addition"@, None, model_size) == (TaskType::VectorAddition { size: 3 }),
        demanded_task_type("matrix_multiplication"@, None, model_size) == (TaskType::MatrixMultiplication { size: 2 }),
        demanded_task_type("simple_inference"@, size, None) == (TaskType::SimpleInference { model_size: 50 }),
        name != "vector_addition"@ && name != "matrix_multiplication"@ && name != "simple_inference"@
            ==> demanded_task_type(name, size, model_size) == (TaskType::MatrixMultiplication { size: 2 }),
        name != "simple_inference"@ ==> demanded_task_type(name, size, model_size) == demanded_task_type(name, size, other),
        name == "simple_inference"@ ==> demanded_task_type(name, size, model_size) == demanded_task_type(name, other, model_size),
{
    reveal_strlit("vector_addition");
    reveal_strlit("matrix_multiplication");
    reveal_strlit("simple_inference");
    assert("vector_addition"@[0] != "matrix_multiplication"@[0]);
    assert("simple_inference"@[0] != "matrix_multiplication"@[0]);
    assert("simple_inference"@[0] != "vector_addition"@[0]);
}

/// Bit patterns of the `f64` values 1.0 to 8.0.
pub open spec fn sample_operands() -> Seq<u64> {
    seq![0x3ff0000000000000u64, 0x4000000000000000u64, 0x4008000000000000u64, 0x4010000000000000u64,
        0x4014000000000000u64, 0x4018000000000000u64, 0x401c000000000000u64, 0x4020000000000000u64]
}

/// The operand words of the sample payload for a task type: 1.0 to 8.0 for
/// matrix multiplication, 1.0 to 6.0 for vector addition, fifty 1.0 for
/// inference.
pub open spec fn sample_words(t: TaskType) -> Seq<u64> {
    match t {
        TaskType::MatrixMultiplication { .. } => sample_operands(),
        TaskType::VectorAddition { .. } => sample_operands().take(6),
        TaskType::SimpleInference { .. } => Seq::new(50, |i: int| 0x3ff0000000000000u64),
    }
}

fn sample_payload(t: &TaskType) -> (data: Vec<u8>)
    ensures
        data@ == bytes_of(sample_words(*t)),
{
    let mut words: Vec<u64> = Vec::new();
    match t {
        TaskType::SimpleInference { .. } => {
            let mut i: usize = 0;
            while i < 50
                invariant
                    i <= 50,
                    words@ == Seq::new(i as nat, |k: int| 0x3ff0000000000000u64),
                decreases 50 - i,
            {
                words.push(0x3ff0000000000000u64);
                i += 1;
                assert(words@ =~= Seq::new(i as nat, |k: int| 0x3ff0000000000000u64));
            }
        },
        _ => {
            words.push(0x3ff0000000000000u64);
            words.push(0x4000000000000000u64);
            words.push(0x4008000000000000u64);
            words.push(0x4010000000000000u64);
            words.push(0x4014000000000000u64);
            words.push(0x4018000000000000u64);
            match t {
                TaskType::MatrixMultiplication { .. } => {
                    words.push(0x401c000000000000u64);
                    words.push(0x4020000000000000u64);
                },
                _ => {},
            }
        },
    }
    assert(words@ =~= sample_words(*t));
    encode_words(words.as_slice())
}

/// The task an agreement carries, if its demand names a task type at all
/// (`task_type` is `None` when the demand has no `task_type` field, and
/// `Some(None)` when the field is not a string, which counts as
/// `matrix_multiplication`).  The task has a fresh id, a sample payload for
/// its type, and a 300-second timeout.
pub fn extract_task_from_agreement(task_type: Option<Option<&str>>, size: Option<u64>, model_size: Option<u64>) -> (r: Option<ConsensusTask>)
    ensures
        match task_type {
            None => r is None,
            Some(field) => r matches Some(task) && {
                let name = match field { Some(n) => n@, None => "matrix_multiplication"@ };
                &&& task.task_type == demanded_task_type(name, size, model_size)
                &&& task.data@ == bytes_of(sample_words(task.task_type))
                &&& task.timeout_seconds == AGREEMENT_TASK_TIMEOUT_SECONDS
                &&& task.priority == 5
                &&& task.metadata@.len() == 0
            },
        },
{
    match task_type {
        None => None,
        Some(field) => {
            let name: &str = match field {
                Some(n) => n,
                None => "matrix_multiplication",
            };
            let t = if same_text(name, "matrix_multiplication") {
                TaskType::MatrixMultiplication { size: (match size { Some(s) => s, None => 2 }) as usize }
            } else if same_text(name, "vector_addition") {
                TaskType::VectorAddition { size: (match size { Some(s) => s, None => 3 }) as usize }
            } else if same_text(name, "simple_inference") {
                TaskType::SimpleInference { model_size: (match model_size { Some(s) => s, None => 50 }) as usize }
            } else {
                TaskType::MatrixMultiplication { size: 2 }
            };
            let data = sample_payload(&t);
            Some(ConsensusTask::new(t, data, AGREEMENT_TASK_TIMEOUT_SECONDS))
        },
    }
}

/// The activity a task was given: the agreement it came from and the
/// activity created for it.
#[derive(Clone, Debug)]
pub struct TaskActivity {
    pub agreement_id: String,
    pub activity_id: String,
}

/// Whether a result was completed strictly after `cutoff`.
pub open spec fn completed_after(r: TaskResult, cutoff: Timestamp) -> bool {
    r.completed_at@.0 > cutoff@.0 || (r.completed_at@.0 == cutoff@.0 && r.completed_at@.1 > cutoff@.1)
}

/// The results of `m` completed strictly after `cutoff`.
pub open spec fn fresh_results(m: Map<Seq<char>, TaskResult>, cutoff: Timestamp) -> Map<Seq<char>, TaskResult> {
    Map::new(|k: Seq<char>| m.contains_key(k) && completed_after(m[k], cutoff), |k: Seq<char>| m[k])
}

/// The client's bookkeeping of tasks: the activity of each task taken from
/// an agreement, the tasks not yet reported, and the results reported.
pub struct ClientLedger {
    activities: Vec<(String, TaskActivity)>,
    pending: Vec<(String, ConsensusTask)>,
    completed: Vec<(String, TaskResult)>,
}

impl ClientLedger {
    /// Each collection has one entry per task id.
    #[verifier::type_invariant]
    spec fn keyed_by_task(self) -> bool {
        &&& unique_keys(self.activities@)
        &&& unique_keys(self.pending@)
        &&& unique_keys(self.completed@)
    }

    /// The activity of each task, by task id.
    pub closed spec fn activities(&self) -> Map<Seq<char>, TaskActivity> {
        keyed_map(self.activities@)
    }

    /// The tasks taken and not yet reported, by task id.
    pub closed spec fn pending(&self) -> Map<Seq<char>, ConsensusTask> {
        keyed_map(self.pending@)
    }

    /// The reported results, by task id.
    pub closed spec fn completed(&self) -> Map<Seq<char>, TaskResult> {
        keyed_map(self.completed@)
    }

    /// An empty ledger.
    pub fn new() -> (l: Self)
        ensures
            l.activities().len() == 0,
            l.pending().len() == 0,
            l.completed().len() == 0,
            l.activities() == Map::<Seq<char>, TaskActivity>::empty(),
            l.pending() == Map::<Seq<char>, ConsensusTask>::empty(),
            l.completed() == Map::<Seq<char>, TaskResult>::empty(),
    {
        ClientLedger { activities: Vec::new(), pending: Vec::new(), completed: Vec::new() }
    }

    /// Records a task taken from an agreement: the task's id maps to the
    /// agreement and its activity, and the task is pending.
    pub fn record_task(&mut self, agreement_id: String, activity_id: String, task: ConsensusTask)
        ensures
            final(self).activities() == old(self).activities().insert(
                task.id@,
                TaskActivity { agreement_id, activity_id },
            ),
            final(self).pending() == old(self).pending().insert(task.id@, task),
            final(self).completed() == old(self).completed(),
    {
        proof {
            use_type_invariant(&*self);
        }
        let key = String::from_str(task.id.as_str());
        let key2 = String::from_str(task.id.as_str());
        let mut activities: Vec<(String, TaskActivity)> = Vec::new();
        std::mem::swap(&mut activities, &mut self.activities);
        let mut pending: Vec<(String, ConsensusTask)> = Vec::new();
        std::mem::swap(&mut pending, &mut self.pending);
        let activities = upsert(activities, key, TaskActivity { agreement_id, activity_id });
        let pending = upsert(pending, key2, task);
        self.activities = activities;
        self.pending = pending;
    }

    /// The activity recorded for a task, if any.
    pub fn activity_for_task(&self, task_id: &str) -> (r: Option<String>)
        ensures
            match r {
                Some(a) => self.activities().contains_key(task_id@)
                    && a@ == self.activities()[task_id@].activity_id@,
                None => !self.activities().contains_key(task_id@),
            },
    {
        proof {
            use_type_invariant(self);
            lemma_keyed_map(self.activities@);
        }
        match position_of_key(&self.activities, task_id) {
            Some(i) => {
                proof {
                    assert(has_key(self.activities@, task_id@));
                }
                Some(String::from_str(self.activities[i].1.activity_id.as_str()))
            },
            None => None,
        }
    }

    /// Records that a task's result was reported: the task is no longer
    /// pending, and its result is stored under its id.
    pub fn complete_task(&mut self, task_id: &str, result: TaskResult)
        ensures
            final(self).pending() == old(self).pending().remove(task_id@),
            final(self).completed() == old(self).completed().insert(task_id@, result),
            final(self).activities() == old(self).activities(),
    {
        proof {
            use_type_invariant(&*self);
        }
        let mut pending: Vec<(String, ConsensusTask)> = Vec::new();
        std::mem::swap(&mut pending, &mut self.pending);
        let mut completed: Vec<(String, TaskResult)> = Vec::new();
        std::mem::swap(&mut completed, &mut self.completed);
        let pending = remove_key(pending, task_id);
        let completed = upsert(completed, String::from_str(task_id), result);
        self.pending = pending;
        self.completed = completed;
    }

    /// The number of pending tasks.
    pub fn pending_count(&self) -> (c: usize)
        ensures
            c == self.pending().len(),
    {
        proof {
            use_type_invariant(self);
            lemma_keyed_map(self.pending@);
        }
        self.pending.len()
    }

    /// The number of reported results.
    pub fn completed_count(&self) -> (c: usize)
        ensures
            c == self.completed().len(),
    {
        proof {
            use_type_invariant(self);
            lemma_keyed_map(self.completed@);
        }
        self.completed.len()
    }

    /// Drops the reported results completed at or before `cutoff`, keeping
    /// those completed strictly after it; returns how many were dropped.
    pub fn cleanup_expired(&mut self, cutoff: &Timestamp) -> (removed: usize)
        ensures
            final(self).completed() == fresh_results(old(self).completed(), *cutoff),
            removed == old(self).completed().len() - final(self).completed().len(),
            final(self).pending() == old(self).pending(),
            final(self).activities() == old(self).activities(),
    {
        proof {
            use_type_invariant(&*self);
        }
        let mut rest: Vec<(String, TaskResult)> = Vec::new();
        std::mem::swap(&mut rest, &mut self.completed);
        let ghost orig = rest@;
        let n = rest.len();
        let mut kept: Vec<(String, TaskResult)> = Vec::new();
        let mut i: usize = 0;
        proof {
            assert(orig.take(0) =~= Seq::<(String, TaskResult)>::empty());
            assert(keyed_map(kept@) =~= fresh_results(keyed_map(orig.take(0)), *cutoff));
        }
        while i < n
            invariant
                n == orig.len(),
                i <= n,
                unique_keys(orig),
                rest@ == orig.subrange(i as int, n as int),
                unique_keys(kept@),
                kept@.len() <= i,
                forall|j: int| 0 <= j < kept@.len() ==> has_key(orig.take(i as int), #[trigger] kept@[j].0@),
                keyed_map(kept@) == fresh_results(keyed_map(orig.take(i as int)), *cutoff),
            decreases n - i,
        {
            let e = rest.remove(0);
            proof {
                assert(e == orig[i as int]);
                assert(orig.take(i + 1).drop_last() =~= orig.take(i as int));
                assert(orig.take(i + 1).last() == orig[i as int]);
                lemma_keyed_map(orig.take(i as int));
                assert(!has_key(orig.take(i as int), e.0@)) by {
                    if has_key(orig.take(i as int), e.0@) {
                        let j = choose|j: int| 0 <= j < i && orig.take(i as int)[j].0@ == e.0@;
                        assert(orig[j].0@ == orig[i as int].0@);
                    }
                }
                assert(rest@ =~= orig.subrange(i + 1, n as int));
                assert forall|j: int| 0 <= j < kept@.len() implies has_key(orig.take(i + 1), #[trigger] kept@[j].0@) by {
                    let l = choose|l: int| 0 <= l < i && orig.take(i as int)[l].0@ == kept@[j].0@;
                    assert(orig.take(i + 1)[l] == orig.take(i as int)[l]);
                }
            }
            let keep = e.1.completed_at.is_after(cutoff);
            if keep {
                let ghost before = kept@;
                proof {
                    assert forall|a: int, b: int| 0 <= a < b < before.len() + 1 implies
                        before.push(e)[a].0@ != before.push(e)[b].0@ by {
                        if b == before.len() {
                            if before[a].0@ == e.0@ {
                                assert(has_key(orig.take(i as int), before[a].0@));
                            }
                        }
                    }
                    assert(before.push(e).drop_last() =~= before);
                    assert(keyed_map(before.push(e)) =~= fresh_results(keyed_map(orig.take(i + 1)), *cutoff));
                    assert forall|j: int| 0 <= j < before.len() + 1 implies has_key(orig.take(i + 1), #[trigger] before.push(e)[j].0@) by {
                        if j == before.len() {
                            assert(orig.take(i + 1)[i as int].0@ == e.0@);
                        } else {
                            assert(before.push(e)[j] == before[j]);
                        }
                    }
                }
                kept.push(e);
            } else {
                proof {
                    assert(keyed_map(kept@) =~= fresh_results(keyed_map(orig.take(i + 1)), *cutoff));
                }
            }
            i += 1;
        }
        proof {
            assert(orig.take(n as int) =~= orig);
            lemma_keyed_map(orig);
            lemma_keyed_map(kept@);
        }
        let removed = n - kept.len();
        self.completed = kept;
        removed
    }
}

/// What is submitted to a task's activity for its result: the result bytes,
/// the text "任务执行成功，耗时: {n}ms" with the execution time, and the
/// error text on failure (empty when the result gave none), none on success.
pub fn activity_result(r: &TaskResult) -> (o: (Vec<u8>, String, Option<String>))
    ensures
        o.0@ == r.result@,
        o.1@ == "任务执行成功，耗时: "@ + decimal(r.execution_time_ms as nat) + "ms"@,
        r.success ==> o.2 is None,
        !r.success ==> (o.2 matches Some(t) && t@ == match r.error_message {
            Some(m) => m@,
            None => Seq::<char>::empty(),
        }),
{
    let mut data: Vec<u8> = Vec::new();
    let n = r.result.len();
    let mut i: usize = 0;
    while i < n
        invariant
            n == r.result@.len(),
            i <= n,
            data@ == r.result@.subrange(0, i as int),
        decreases n - i,
    {
        data.push(r.result[i]);
        i += 1;
        assert(data@ =~= r.result@.subrange(0, i as int));
    }
    assert(data@ =~= r.result@);
    let ms = u64_to_decimal(r.execution_time_ms);
    let stdout = joined("任务执行成功，耗时: ", ms.as_str()).concat("ms");
    let stderr = if r.success {
        None
    } else {
        match &r.error_message {
            Some(m) => Some(String::from_str(m.as_str())),
            None => Some(String::new()),
        }
    };
    (data, stdout, stderr)
}

} // verus!
