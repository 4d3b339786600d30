//! Task, result and status types shared by the executor, the client and the
//! monitoring server.

use vstd::prelude::*;
use crate::clock::{chrono_accepts, elapsed_from, seconds_since, utc_now, Timestamp};

verus! {

/// The kinds of computation a provider can be asked to perform.
#[derive(Clone, Copy, Debug, PartialEq, Eq, Structural)]
pub enum TaskType {
    /// Multiplication of two `size` x `size` matrices.
    MatrixMultiplication { size: usize },
    /// Element-wise addition of two vectors of length `size`.
    VectorAddition { size: usize },
    /// A two-layer network forward pass with `model_size` hidden units.
    SimpleInference { model_size: usize },
}

/// The name under which a task type is configured and reported.
pub open spec fn task_type_name(t: TaskType) -> Seq<char> {
    match t {
        TaskType::MatrixMultiplication { .. } => "matrix_multiplication"@,
        TaskType::VectorAddition { .. } => "vector_addition"@,
        TaskType::SimpleInference { .. } => "simple_inference"@,
    }
}

/// The estimated amount of work of a task type: cubic, linear or quadratic
/// in its size parameter.
pub open spec fn task_complexity(t: TaskType) -> int {
    match t {
        TaskType::MatrixMultiplication { size } => size * size * size,
        TaskType::VectorAddition { size } => size as int,
        TaskType::SimpleInference { model_size } => model_size * model_size,
    }
}

impl TaskType {
    /// The task type's configured name.
    pub fn as_str(&self) -> (s: &'static str)
        ensures
            s@ == task_type_name(*self),
    {
        match self {
            TaskType::MatrixMultiplication { .. } => "matrix_multiplication",
            TaskType::VectorAddition { .. } => "vector_addition",
            TaskType::SimpleInference { .. } => "simple_inference",
        }
    }

    /// The estimated computational complexity, used for scheduling.
    /// The product is computed in `usize` and must not overflow.
    pub fn estimated_complexity(&self) -> (c: u64)
        requires
            task_complexity(*self) <= usize::MAX,
        ensures
            c == task_complexity(*self),
    {
        match self {
            TaskType::MatrixMultiplication { size } => {
                let s = *size;
                assert(s * s <= usize::MAX) by (nonlinear_arith)
                    requires s * s * s <= usize::MAX, 0 <= s;
                (s * s * s) as u64
            },
            TaskType::VectorAddition { size } => *size as u64,
            TaskType::SimpleInference { model_size } => (*model_size * *model_size) as u64,
        }
    }
}

/// The lifecycle state of a provider node.
#[derive(Clone, Debug)]
pub enum ProviderStatus {
    Starting,
    Running,
    Busy,
    Paused,
    Error { message: String },
    Stopped,
}

/// The name under which a provider status is reported.
pub open spec fn provider_status_name(s: ProviderStatus) -> Seq<char> {
    match s {
        ProviderStatus::Starting => "starting"@,
        ProviderStatus::Running => "running"@,
        ProviderStatus::Busy => "busy"@,
        ProviderStatus::Paused => "paused"@,
        ProviderStatus::Error { .. } => "error"@,
        ProviderStatus::Stopped => "stopped"@,
    }
}

impl ProviderStatus {
    /// A node accepts new tasks only while it is running.
    pub fn can_accept_tasks(&self) -> (b: bool)
        ensures
            b == (*self is Running),
    {
        match self {
            ProviderStatus::Running => true,
            _ => false,
        }
    }

    /// The name of this status.
    pub fn as_str(&self) -> (s: &'static str)
        ensures
            s@ == provider_status_name(*self),
    {
        match self {
            ProviderStatus::Starting => "starting",
            ProviderStatus::Running => "running",
            ProviderStatus::Busy => "busy",
            ProviderStatus::Paused => "paused",
            ProviderStatus::Error { .. } => "error",
            ProviderStatus::Stopped => "stopped",
        }
    }
}

/// A node accepts tasks exactly when its status is reported as "running".
pub proof fn lemma_accepts_tasks_iff_running(s: ProviderStatus)
    ensures
        (s is Running) == (provider_status_name(s) == "running"@),
{
    reveal_strlit("running");
    reveal_strlit("starting");
    reveal_strlit("busy");
    reveal_strlit("paused");
    reveal_strlit("error");
    reveal_strlit("stopped");
    assert("starting"@[0] != "running"@[0]);
    assert("busy"@[0] != "running"@[0]);
    assert("paused"@[0] != "running"@[0]);
    assert("error"@[0] != "running"@[0]);
    assert("stopped"@[0] != "running"@[0]);
}

/// Different kinds of task have different names.
pub proof fn lemma_task_type_names_distinct(a: TaskType, b: TaskType)
    ensures
        task_type_name(a) == task_type_name(b) ==> {
            &&& (a is MatrixMultiplication) == (b is MatrixMultiplication)
            &&& (a is VectorAddition) == (b is VectorAddition)
            &&& (a is SimpleInference) == (b is SimpleInference)
        },
{
    reveal_strlit("matrix_multiplication");
    reveal_strlit("vector_addition");
    reveal_strlit("simple_inference");
    assert(task_type_name(a).len() > 0 && task_type_name(b).len() > 0);
    assert("matrix_multiplication"@[0] == 'm');
    assert("vector_addition"@[0] == 'v');
    assert("simple_inference"@[0] == 's');
}

/// Different provider statuses are reported under different names.
pub proof fn lemma_provider_status_names_distinct(a: ProviderStatus, b: ProviderStatus)
    ensures
        provider_status_name(a) == provider_status_name(b) ==> {
            &&& (a is Starting) == (b is Starting)
            &&& (a is Running) == (b is Running)
            &&& (a is Busy) == (b is Busy)
            &&& (a is Paused) == (b is Paused)
            &&& (a is Error) == (b is Error)
            &&& (a is Stopped) == (b is Stopped)
        },
{
    reveal_strlit("starting");
    reveal_strlit("running");
    reveal_strlit("busy");
    reveal_strlit("paused");
    reveal_strlit("error");
    reveal_strlit("stopped");
    assert("starting"@[0] == 's' && "starting"@[2] == 'a');
    assert("running"@[0] == 'r' && "running"@[2] == 'n');
    assert("busy"@[0] == 'b' && "busy"@[2] == 's');
    assert("paused"@[0] == 'p' && "paused"@[2] == 'u');
    assert("error"@[0] == 'e' && "error"@[2] == 'r');
    assert("stopped"@[0] == 's' && "stopped"@[2] == 'o');
}

/// The overall health of a node's host system.
#[derive(Clone, Copy, Debug, PartialEq, Eq, Structural)]
pub enum SystemStatus {
    Healthy,
    Warning,
    Error,
    Critical,
}

/// The name under which a system status is reported.
pub open spec fn system_status_name(s: SystemStatus) -> Seq<char> {
    match s {
        SystemStatus::Healthy => "healthy"@,
        SystemStatus::Warning => "warning"@,
        SystemStatus::Error => "error"@,
        SystemStatus::Critical => "critical"@,
    }
}

impl SystemStatus {
    /// The name of this status.
    pub fn as_str(&self) -> (s: &'static str)
        ensures
            s@ == system_status_name(*self),
    {
        match self {
            SystemStatus::Healthy => "healthy",
            SystemStatus::Warning => "warning",
            SystemStatus::Error => "error",
            SystemStatus::Critical => "critical",
        }
    }
}

/// Different system statuses are reported under different names.
pub proof fn lemma_system_status_names_distinct(a: SystemStatus, b: SystemStatus)
    ensures
        system_status_name(a) == system_status_name(b) ==> a == b,
{
    reveal_strlit("healthy");
    reveal_strlit("warning");
    reveal_strlit("error");
    reveal_strlit("critical");
    assert("healthy"@[0] == 'h');
    assert("warning"@[0] == 'w');
    assert("error"@[0] == 'e');
    assert("critical"@[0] == 'c');
}

/// Resource usage of one task execution.  Each quantity is a floating-point
/// number in its unit (percent, MB, KB), held as the bit pattern of
/// its `f64` value.
#[derive(Clone, Copy, Debug, PartialEq, Eq, Structural)]
pub struct ResourceUsage {
    pub cpu_usage_percent: u64,
    pub memory_usage_mb: u64,
    pub gpu_memory_usage_mb: Option<u64>,
    pub network_usage_kb: u64,
}

impl Default for ResourceUsage {
    /// No usage: all quantities `0.0` (bit pattern 0) and no GPU figure.
    fn default() -> (u: Self)
        ensures
            u == (ResourceUsage { cpu_usage_percent: 0, memory_usage_mb: 0, gpu_memory_usage_mb: None, network_usage_kb: 0 }),
    {
        ResourceUsage { cpu_usage_percent: 0, memory_usage_mb: 0, gpu_memory_usage_mb: None, network_usage_kb: 0 }
    }
}

/// A lowercase hexadecimal digit.
pub open spec fn lower_hex_digit(c: char) -> bool {
    ('0' <= c && c <= '9') || ('a' <= c && c <= 'f')
}

/// The text of a random (version 4, RFC 4122 variant) UUID in its
/// hyphenated lowercase form: 36 characters, hyphens at positions 8, 13, 18
/// and 23, lowercase hexadecimal digits elsewhere, the version digit `4` at
/// position 14 and a variant digit `8`, `9`, `a` or `b` at position 19.
pub open spec fn uuid_v4_text(s: Seq<char>) -> bool {
    &&& s.len() == 36
    &&& forall|i: int| 0 <= i < 36 ==>
        if i == 8 || i == 13 || i == 18 || i == 23 { s[i] == '-' } else { lower_hex_digit(#[trigger] s[i]) }
    &&& s[14] == '4'
    &&& (s[19] == '8' || s[19] == '9' || s[19] == 'a' || s[19] == 'b')
}

/// Calls `uuid::Uuid::new_v4` and formats the result with `to_string`.  The
/// identifier is random; `new_v4` sets the version and variant bits, and
/// `to_string` writes the hyphenated lowercase hexadecimal form.
#[verifier::external_body]
fn new_task_id() -> (id: String)
    ensures
        uuid_v4_text(id@),
{
    uuid::Uuid::new_v4().to_string()
}

/// A computation task distributed to providers.
#[derive(Clone, Debug)]
pub struct ConsensusTask {
    pub id: String,
    pub task_type: TaskType,
    pub data: Vec<u8>,
    pub created_at: Timestamp,
    pub timeout_seconds: u64,
    /// Priority from 0 to 10, higher first.
    pub priority: u8,
    /// Free-form (key, value) annotations.
    pub metadata: Vec<(String, String)>,
}

/// The seconds left for a difference `left` between timeout and elapsed
/// time: `left` when positive, else 0, at most `i64::MAX`.
pub open spec fn time_left(left: int) -> int {
    if left <= 0 { 0 } else if left > i64::MAX { i64::MAX as int } else { left }
}

/// The seconds left are never negative and never above `i64::MAX`, and a
/// positive difference that fits `i64` is left as it is.
pub proof fn lemma_time_left_bounds(left: int)
    ensures
        0 <= time_left(left) <= i64::MAX,
        0 < left <= i64::MAX ==> time_left(left) == left,
        left <= 0 ==> time_left(left) == 0,
{
}

impl ConsensusTask {
    /// A new task with a fresh random UUID as its id, created now, with the default
    /// priority 5 and no metadata.
    pub fn new(task_type: TaskType, data: Vec<u8>, timeout_seconds: u64) -> (t: Self)
        ensures
            uuid_v4_text(t.id@),
            t.task_type == task_type,
            t.data@ == data@,
            t.timeout_seconds == timeout_seconds,
            t.priority == 5,
            t.metadata@.len() == 0,
    {
        ConsensusTask {
            id: new_task_id(),
            task_type,
            data,
            created_at: utc_now(),
            timeout_seconds,
            priority: 5,
            metadata: Vec::new(),
        }
    }

    /// Whether the task has expired: the whole seconds elapsed since its
    /// creation, read from the clock and compared as `u64`, reach its timeout.
    pub fn is_expired(&self) -> (b: bool)
        ensures
            exists|now: Timestamp|
                chrono_accepts(now@.0, now@.1)
                    && b == (elapsed_from(now, self.created_at) as u64 >= self.timeout_seconds),
    {
        let elapsed = seconds_since(self.created_at);
        self.is_expired_after(elapsed)
    }

    /// The whole seconds left before the task expires, read from the clock,
    /// never negative: the timeout read as `i64` minus the elapsed seconds.
    /// Where that difference does not fit `i64` (a timeout near the ends of
    /// `i64` read against a clock far off the creation time), a negative one
    /// gives 0 like any other, and a positive one saturates at `i64::MAX`.
    pub fn remaining_seconds(&self) -> (r: i64)
        ensures
            exists|now: Timestamp|
                chrono_accepts(now@.0, now@.1)
                    && r == time_left(self.timeout_seconds as i64 - elapsed_from(now, self.created_at)),
    {
        let elapsed = seconds_since(self.created_at);
        let timeout = self.timeout_seconds as i64;
        if elapsed < 0 && timeout > i64::MAX + elapsed {
            i64::MAX
        } else if elapsed > 0 && timeout < i64::MIN + elapsed {
            0
        } else {
            self.remaining_seconds_after(elapsed)
        }
    }

    /// Whether the task has expired when `elapsed_seconds` whole seconds have
    /// passed since its creation.  The elapsed time is compared as `u64`, so a
    /// negative elapsed time (a clock that went backwards) counts as a huge one.
    pub fn is_expired_after(&self, elapsed_seconds: i64) -> (b: bool)
        ensures
            b == (elapsed_seconds as u64 >= self.timeout_seconds),
            elapsed_seconds >= 0 ==> b == (elapsed_seconds >= self.timeout_seconds),
    {
        elapsed_seconds as u64 >= self.timeout_seconds
    }

    /// The whole seconds left before expiry when `elapsed_seconds` have
    /// passed, never negative.  The timeout is read as `i64`; the difference
    /// must not overflow.
    pub fn remaining_seconds_after(&self, elapsed_seconds: i64) -> (r: i64)
        requires
            i64::MIN <= self.timeout_seconds as i64 - elapsed_seconds <= i64::MAX,
        ensures
            r == (if self.timeout_seconds as i64 - elapsed_seconds > 0 { self.timeout_seconds as i64 - elapsed_seconds } else { 0 }),
    {
        let remaining = self.timeout_seconds as i64 - elapsed_seconds;
        if remaining > 0 { remaining } else { 0 }
    }
}

/// The outcome of executing one task on one provider.
#[derive(Clone, Debug)]
pub struct TaskResult {
    pub task_id: String,
    pub provider_id: String,
    pub result: Vec<u8>,
    pub execution_time_ms: u64,
    pub success: bool,
    pub error_message: Option<String>,
    pub completed_at: Timestamp,
    pub resource_usage: ResourceUsage,
}

impl TaskResult {
    /// A successful result, completed now.
    pub fn success(
        task_id: String,
        provider_id: String,
        result: Vec<u8>,
        execution_time_ms: u64,
        resource_usage: ResourceUsage,
    ) -> (r: Self)
        ensures
            r.task_id@ == task_id@,
            r.provider_id@ == provider_id@,
            r.result@ == result@,
            r.execution_time_ms == execution_time_ms,
            r.success,
            r.error_message is None,
            r.resource_usage == resource_usage,
    {
        TaskResult {
            task_id,
            provider_id,
            result,
            execution_time_ms,
            success: true,
            error_message: None,
            completed_at: utc_now(),
            resource_usage,
        }
    }

    /// A failed result with an empty output and the given message, completed now.
    pub fn failure(
        task_id: String,
        provider_id: String,
        error_message: String,
        execution_time_ms: u64,
        resource_usage: ResourceUsage,
    ) -> (r: Self)
        ensures
            r.task_id@ == task_id@,
            r.provider_id@ == provider_id@,
            r.result@.len() == 0,
            r.execution_time_ms == execution_time_ms,
            !r.success,
            r.error_message matches Some(m) && m@ == error_message@,
            r.resource_usage == resource_usage,
    {
        TaskResult {
            task_id,
            provider_id,
            result: Vec::new(),
            execution_time_ms,
            success: false,
            error_message: Some(error_message),
            completed_at: utc_now(),
            resource_usage,
        }
    }
}

} // verus!
