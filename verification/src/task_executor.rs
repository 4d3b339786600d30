//! The task executor: the framing of task payloads and results as bytes.
//!
//! A payload is a sequence of 8-byte little-endian words; each word is the
//! bit pattern of an `f64` operand.  The library decodes and encodes the
//! words and checks their number against the task's shape; the floating-point
//! arithmetic on the operands is done by the application.

use vstd::prelude::*;
use crate::cheating::{differs_only_at, overwritten, valid_draws, CheatingMode, CheatingSimulator};
use crate::types::{ConsensusTask, ResourceUsage, TaskResult};

verus! {

/// Executor settings.
#[derive(Clone, Copy, Debug)]
pub struct ExecutorConfig {
    pub verbose_logging: bool,
    pub max_execution_time_seconds: u64,
    pub simulate_real_resources: bool,
}

impl Default for ExecutorConfig {
    /// Verbose logging, a 300 s execution limit, simulated resource usage.
    fn default() -> (c: Self)
        ensures
            c.verbose_logging,
            c.max_execution_time_seconds == 300,
            c.simulate_real_resources,
    {
        ExecutorConfig { verbose_logging: true, max_execution_time_seconds: 300, simulate_real_resources: true }
    }
}

/// Executes computation tasks.
#[derive(Clone, Copy, Debug)]
pub struct TaskExecutor {
    pub config: ExecutorConfig,
}

/// Why a payload could not be decoded.
#[derive(Clone, Copy, Debug, PartialEq, Eq, Structural)]
pub enum PayloadError {
    /// A two-operand payload had `actual` bytes where `expected` were needed.
    DataSizeMismatch { expected: usize, actual: usize },
    /// A matrix had `actual` bytes where `expected` were needed.
    MatrixSizeMismatch { expected: usize, actual: usize },
    /// A vector's byte length `actual` is not a multiple of 8.
    VectorLengthNotMultipleOfEight { actual: usize },
}

/// The number a little-endian byte sequence denotes.
pub open spec fn le_value(s: Seq<u8>) -> nat
    decreases s.len(),
{
    if s.len() == 0 {
        0
    } else {
        s[0] as nat + 256 * le_value(s.drop_first())
    }
}

/// The `k` low-order bytes of `v`, least significant first.
pub open spec fn le_bytes(v: nat, k: nat) -> Seq<u8>
    decreases k,
{
    if k == 0 {
        Seq::empty()
    } else {
        seq![(v % 256) as u8] + le_bytes(v / 256, (k - 1) as nat)
    }
}

/// The words of a byte sequence: word `i` is bytes `8i..8i+8` read little-endian.
pub open spec fn words_of(bytes: Seq<u8>) -> Seq<u64> {
    Seq::new(bytes.len() / 8, |i: int| le_value(bytes.subrange(8 * i, 8 * i + 8)) as u64)
}

/// The bytes of a word sequence: each word as 8 little-endian bytes.
pub open spec fn bytes_of(words: Seq<u64>) -> Seq<u8>
    decreases words.len(),
{
    if words.len() == 0 {
        Seq::empty()
    } else {
        bytes_of(words.drop_last()) + le_bytes(words.last() as nat, 8)
    }
}

/// 256 to the power `k`.
pub open spec fn pow256(k: nat) -> nat
    decreases k,
{
    if k == 0 { 1 } else { 256 * pow256((k - 1) as nat) }
}

proof fn lemma_le_value_bound(s: Seq<u8>)
    ensures
        le_value(s) < pow256(s.len()),
    decreases s.len(),
{
    if s.len() > 0 {
        lemma_le_value_bound(s.drop_first());
        let r = le_value(s.drop_first());
        let p = pow256(s.drop_first().len());
        assert(s[0] as nat + 256 * r < 256 * p) by (nonlinear_arith)
            requires r < p, s[0] < 256;
    }
}

proof fn lemma_pow256_eight()
    ensures
        pow256(8) == 0x1_0000_0000_0000_0000,
{
    reveal_with_fuel(pow256, 9);
}

/// Decoding the encoding of a number gives back the number, modulo 256^k.
proof fn lemma_value_of_bytes(v: nat, k: nat)
    ensures
        le_bytes(v, k).len() == k,
        v < pow256(k) ==> le_value(le_bytes(v, k)) == v,
    decreases k,
{
    if k > 0 {
        lemma_value_of_bytes(v / 256, (k - 1) as nat);
        let b = le_bytes(v, k);
        assert(b.drop_first() =~= le_bytes(v / 256, (k - 1) as nat));
        if v < pow256(k) {
            assert(v / 256 < pow256((k - 1) as nat)) by (nonlinear_arith)
                requires v < 256 * pow256((k - 1) as nat);
        }
    }
}

/// Encoding the number a byte sequence denotes gives back the sequence.
proof fn lemma_bytes_of_value(s: Seq<u8>)
    ensures
        le_bytes(le_value(s), s.len()) == s,
    decreases s.len(),
{
    if s.len() > 0 {
        let r = le_value(s.drop_first());
        let v = le_value(s);
        lemma_bytes_of_value(s.drop_first());
        assert(v % 256 == s[0] as nat && v / 256 == r) by (nonlinear_arith)
            requires v == s[0] as nat + 256 * r, s[0] < 256;
        assert(le_bytes(v, s.len()) =~= s);
    }
}

proof fn lemma_bytes_of_len(words: Seq<u64>)
    ensures
        bytes_of(words).len() == 8 * words.len(),
    decreases words.len(),
{
    if words.len() > 0 {
        lemma_bytes_of_len(words.drop_last());
        lemma_value_of_bytes(words.last() as nat, 8);
    }
}

/// Word `i` of `bytes_of(words)` occupies bytes `8i..8i+8`.
proof fn lemma_bytes_of_chunk(words: Seq<u64>, i: int)
    requires
        0 <= i < words.len(),
    ensures
        bytes_of(words).len() == 8 * words.len(),
        bytes_of(words).subrange(8 * i, 8 * i + 8) == le_bytes(words[i] as nat, 8),
    decreases words.len(),
{
    lemma_bytes_of_len(words);
    lemma_bytes_of_len(words.drop_last());
    lemma_value_of_bytes(words.last() as nat, 8);
    if i < words.len() - 1 {
        lemma_bytes_of_chunk(words.drop_last(), i);
        assert(bytes_of(words).subrange(8 * i, 8 * i + 8) =~= bytes_of(words.drop_last()).subrange(8 * i, 8 * i + 8));
    } else {
        assert(bytes_of(words).subrange(8 * i, 8 * i + 8) =~= le_bytes(words.last() as nat, 8));
    }
}

/// The words decoded from encoded words are the words.
pub proof fn lemma_words_of_bytes_of(words: Seq<u64>)
    ensures
        words_of(bytes_of(words)) == words,
{
    lemma_bytes_of_len(words);
    lemma_pow256_eight();
    assert forall|i: int| 0 <= i < words.len() implies words_of(bytes_of(words))[i] == words[i] by {
        lemma_bytes_of_chunk(words, i);
        lemma_value_of_bytes(words[i] as nat, 8);
    }
    assert(words_of(bytes_of(words)) =~= words);
}

/// Bytes whose length is a multiple of 8 are the encoding of their words.
pub proof fn lemma_bytes_of_words_of(bytes: Seq<u8>)
    requires
        bytes.len() % 8 == 0,
    ensures
        bytes_of(words_of(bytes)) == bytes,
    decreases bytes.len(),
{
    if bytes.len() > 0 {
        let n = bytes.len();
        let front = bytes.subrange(0, n - 8);
        let last = bytes.subrange(n - 8, n as int);
        lemma_bytes_of_words_of(front);
        assert(words_of(bytes).drop_last() =~= words_of(front)) by {
            assert forall|i: int| 0 <= i < words_of(front).len() implies words_of(bytes).drop_last()[i] == words_of(front)[i] by {
                assert(bytes.subrange(8 * i, 8 * i + 8) =~= front.subrange(8 * i, 8 * i + 8));
            }
        }
        lemma_le_value_bound(last);
        lemma_pow256_eight();
        lemma_bytes_of_value(last);
        assert(words_of(bytes).last() as nat == le_value(last));
        assert(bytes =~= front + last);
    } else {
        assert(bytes_of(words_of(bytes)) =~= bytes);
    }
}

/// The words of the `count` 8-byte chunks of `bytes` starting at `start`.
pub open spec fn words_at(bytes: Seq<u8>, start: int, count: nat) -> Seq<u64> {
    Seq::new(count, |i: int| le_value(bytes.subrange(start + 8 * i, start + 8 * i + 8)) as u64)
}

fn decode_word(data: &[u8], start: usize) -> (w: u64)
    requires
        start + 8 <= data@.len(),
    ensures
        w as nat == le_value(data@.subrange(start as int, start + 8)),
{
    let b0 = data[start] as u64;
    let b1 = data[start + 1] as u64;
    let b2 = data[start + 2] as u64;
    let b3 = data[start + 3] as u64;
    let b4 = data[start + 4] as u64;
    let b5 = data[start + 5] as u64;
    let b6 = data[start + 6] as u64;
    let b7 = data[start + 7] as u64;
    let w = b0 + 256 * (b1 + 256 * (b2 + 256 * (b3 + 256 * (b4 + 256 * (b5 + 256 * (b6 + 256 * b7))))));
    proof {
        let s = data@.subrange(start as int, start + 8);
        assert(s =~= seq![data@[start as int], data@[start + 1], data@[start + 2], data@[start + 3],
            data@[start + 4], data@[start + 5], data@[start + 6], data@[start + 7]]);
        reveal_with_fuel(le_value, 9);
        assert(s.drop_first().drop_first().drop_first().drop_first().drop_first().drop_first().drop_first().drop_first().len() == 0);
    }
    w
}

fn decode_words(data: &[u8], start: usize, count: usize) -> (ws: Vec<u64>)
    requires
        start + 8 * count <= data@.len(),
    ensures
        ws@ == words_at(data@, start as int, count as nat),
{
    let mut ws: Vec<u64> = Vec::new();
    let mut i: usize = 0;
    let len = data.len();
    while i < count
        invariant
            len == data@.len(),
            start + 8 * count <= data@.len(),
            i <= count,
            ws@ == words_at(data@, start as int, i as nat),
        decreases count - i,
    {
        let w = decode_word(data, start + 8 * i);
        ws.push(w);
        i += 1;
        assert(ws@ =~= words_at(data@, start as int, i as nat));
    }
    ws
}

proof fn lemma_words_of_is_words_at(bytes: Seq<u8>)
    ensures
        words_of(bytes) == words_at(bytes, 0, bytes.len() / 8),
{
    assert(words_of(bytes) =~= words_at(bytes, 0, bytes.len() / 8));
}

proof fn lemma_words_at_split(bytes: Seq<u8>, start: int, count: nat)
    requires
        0 <= start,
        start + 8 * count <= bytes.len(),
    ensures
        words_at(bytes, start, count) == words_of(bytes.subrange(start, start + 8 * count)),
{
    let sub = bytes.subrange(start, start + 8 * count);
    assert forall|i: int| 0 <= i < count implies words_at(bytes, start, count)[i] == words_of(sub)[i] by {
        assert(sub.subrange(8 * i, 8 * i + 8) =~= bytes.subrange(start + 8 * i, start + 8 * i + 8));
    }
    assert(words_at(bytes, start, count) =~= words_of(sub));
}

fn encode_word(out: &mut Vec<u8>, w: u64)
    ensures
        final(out)@ == old(out)@ + le_bytes(w as nat, 8),
{
    let mut v = w;
    let mut k: usize = 0;
    let ghost start = out@;
    assert(pow256(0) == 1);
    assert(w as nat / 1 == w as nat);
    assert(le_bytes(w as nat, 0).subrange(0, 0) =~= Seq::<u8>::empty());
    while k < 8
        invariant
            k <= 8,
            out@ == start + le_bytes(w as nat, k as nat).subrange(0, k as int),
            v as nat == w as nat / pow256(k as nat),
            le_bytes(w as nat, k as nat).len() == k,
        decreases 8 - k,
    {
        proof {
            lemma_le_bytes_snoc(w as nat, k as nat);
        }
        out.push((v % 256) as u8);
        proof {
            lemma_div_pow256_step(w as nat, k as nat);
        }
        v = v / 256;
        k += 1;
        assert(out@ =~= start + le_bytes(w as nat, k as nat).subrange(0, k as int));
    }
    assert(le_bytes(w as nat, 8).subrange(0, 8) =~= le_bytes(w as nat, 8));
}

proof fn lemma_div_pow256_step(w: nat, k: nat)
    ensures
        w / pow256(k) / 256 == w / pow256(k + 1),
{
    let p = pow256(k);
    lemma_pow256_positive(k);
    assert(pow256(k + 1) == 256 * p);
    vstd::arithmetic::div_mod::lemma_div_denominator(w as int, p as int, 256);
    assert(p * 256 == 256 * p) by (nonlinear_arith);
}

proof fn lemma_pow256_positive(k: nat)
    ensures
        pow256(k) > 0,
    decreases k,
{
    if k > 0 {
        lemma_pow256_positive((k - 1) as nat);
    }
}

/// Extending the encoding by one byte appends the next digit base 256.
proof fn lemma_le_bytes_snoc(w: nat, k: nat)
    ensures
        le_bytes(w, k + 1) == le_bytes(w, k) + seq![((w / pow256(k)) % 256) as u8],
        le_bytes(w, k).len() == k,
    decreases k,
{
    lemma_value_of_bytes(w, k);
    lemma_value_of_bytes(w, k + 1);
    if k > 0 {
        let km = (k - 1) as nat;
        lemma_le_bytes_snoc(w / 256, km);
        lemma_pow256_positive(km);
        vstd::arithmetic::div_mod::lemma_div_denominator(w as int, 256, pow256(km) as int);
        assert(pow256(k) == 256 * pow256(km));
        assert(w / 256 / pow256(km) == w / pow256(k));
        assert(le_bytes(w, k + 1) == seq![(w % 256) as u8] + le_bytes(w / 256, k));
        assert(le_bytes(w, k) == seq![(w % 256) as u8] + le_bytes(w / 256, km));
        assert(le_bytes(w / 256, km + 1) == le_bytes(w / 256, km) + seq![((w / 256 / pow256(km)) % 256) as u8]);
        assert(le_bytes(w, k + 1) =~= le_bytes(w, k) + seq![((w / pow256(k)) % 256) as u8]);
    } else {
        assert(pow256(0) == 1);
        assert(w / 1 == w);
        assert(le_bytes(w, 0) =~= Seq::<u8>::empty());
        assert(le_bytes(w, 1) =~= seq![(w % 256) as u8]);
        assert(le_bytes(w, 1) =~= le_bytes(w, 0) + seq![((w / pow256(0)) % 256) as u8]);
    }
}

pub(crate) fn encode_words(values: &[u64]) -> (bytes: Vec<u8>)
    ensures
        bytes@ == bytes_of(values@),
{
    let mut out: Vec<u8> = Vec::new();
    let n = values.len();
    let mut i: usize = 0;
    while i < n
        invariant
            n == values@.len(),
            i <= n,
            out@ == bytes_of(values@.take(i as int)),
        decreases n - i,
    {
        encode_word(&mut out, values[i]);
        assert(values@.take(i + 1).drop_last() =~= values@.take(i as int));
        i += 1;
    }
    assert(values@.take(n as int) =~= values@);
    out
}

impl TaskExecutor {
    /// An executor with the default settings.
    pub fn new() -> (e: Self)
        ensures
            e.config.verbose_logging,
            e.config.max_execution_time_seconds == 300,
            e.config.simulate_real_resources,
    {
        TaskExecutor { config: ExecutorConfig::default() }
    }

    /// Decodes a vector: its words, if the length is a multiple of 8.
    pub fn bytes_to_vector(&self, bytes: &[u8]) -> (r: Result<Vec<u64>, PayloadError>)
        ensures
            bytes@.len() % 8 == 0 ==> (r matches Ok(v) && v@ == words_of(bytes@)),
            bytes@.len() % 8 != 0 ==> r == Err::<Vec<u64>, PayloadError>(
                PayloadError::VectorLengthNotMultipleOfEight { actual: bytes@.len() as usize }),
    {
        if bytes.len() % 8 != 0 {
            return Err(PayloadError::VectorLengthNotMultipleOfEight { actual: bytes.len() });
        }
        let ws = decode_words(bytes, 0, bytes.len() / 8);
        proof {
            lemma_words_of_is_words_at(bytes@);
        }
        Ok(ws)
    }

    /// Decodes a single input vector (the input of an inference task).
    pub fn parse_vector_from_bytes(&self, data: &[u8]) -> (r: Result<Vec<u64>, PayloadError>)
        ensures
            data@.len() % 8 == 0 ==> (r matches Ok(v) && v@ == words_of(data@)),
            data@.len() % 8 != 0 ==> r == Err::<Vec<u64>, PayloadError>(
                PayloadError::VectorLengthNotMultipleOfEight { actual: data@.len() as usize }),
    {
        self.bytes_to_vector(data)
    }

    /// Decodes a `size` x `size` matrix in row-major order; the byte length
    /// must be `size * size * 8`, which must not overflow.
    pub fn bytes_to_matrix(&self, bytes: &[u8], size: usize) -> (r: Result<Vec<u64>, PayloadError>)
        requires
            size * size * 8 <= usize::MAX,
        ensures
            bytes@.len() == size * size * 8 ==> (r matches Ok(v) && v@ == words_of(bytes@)),
            bytes@.len() != size * size * 8 ==> r == Err::<Vec<u64>, PayloadError>(
                PayloadError::MatrixSizeMismatch { expected: (size * size * 8) as usize, actual: bytes@.len() as usize }),
    {
        assert(size * size <= usize::MAX) by (nonlinear_arith)
            requires size * size * 8 <= usize::MAX;
        let expected = size * size * 8;
        if bytes.len() != expected {
            return Err(PayloadError::MatrixSizeMismatch { expected, actual: bytes.len() });
        }
        let ws = decode_words(bytes, 0, size * size);
        proof {
            lemma_words_of_is_words_at(bytes@);
        }
        Ok(ws)
    }

    /// Decodes the two `size` x `size` operand matrices of a multiplication
    /// task, stored one after the other; the payload must hold exactly
    /// `size * size * 8 * 2` bytes, which must not overflow.
    pub fn parse_matrices_from_bytes(&self, data: &[u8], size: usize) -> (r: Result<(Vec<u64>, Vec<u64>), PayloadError>)
        requires
            size * size * 8 * 2 <= usize::MAX,
        ensures
            data@.len() == size * size * 16 ==> (r matches Ok((a, b))
                && a@ == words_of(data@.subrange(0, size * size * 8))
                && b@ == words_of(data@.subrange(size * size * 8, data@.len() as int))),
            data@.len() != size * size * 16 ==> r == Err::<(Vec<u64>, Vec<u64>), PayloadError>(
                PayloadError::DataSizeMismatch { expected: (size * size * 16) as usize, actual: data@.len() as usize }),
    {
        assert(size * size <= usize::MAX) by (nonlinear_arith)
            requires size * size * 8 * 2 <= usize::MAX;
        let expected = size * size * 8 * 2;
        if data.len() != expected {
            return Err(PayloadError::DataSizeMismatch { expected, actual: data.len() });
        }
        let n = size * size;
        let a = decode_words(data, 0, n);
        let b = decode_words(data, 8 * n, n);
        proof {
            lemma_words_at_split(data@, 0, n as nat);
            lemma_words_at_split(data@, 8 * n, n as nat);
        }
        Ok((a, b))
    }

    /// Decodes the two length-`size` operand vectors of an addition task,
    /// stored one after the other; the payload must hold exactly
    /// `size * 8 * 2` bytes, which must not overflow.
    pub fn parse_vectors_from_bytes(&self, data: &[u8], size: usize) -> (r: Result<(Vec<u64>, Vec<u64>), PayloadError>)
        requires
            size * 8 * 2 <= usize::MAX,
        ensures
            data@.len() == size * 16 ==> (r matches Ok((a, b))
                && a@ == words_of(data@.subrange(0, size * 8))
                && b@ == words_of(data@.subrange(size * 8, data@.len() as int))),
            data@.len() != size * 16 ==> r == Err::<(Vec<u64>, Vec<u64>), PayloadError>(
                PayloadError::DataSizeMismatch { expected: (size * 16) as usize, actual: data@.len() as usize }),
    {
        let expected = size * 8 * 2;
        if data.len() != expected {
            return Err(PayloadError::DataSizeMismatch { expected, actual: data.len() });
        }
        let a = decode_words(data, 0, size);
        let b = decode_words(data, 8 * size, size);
        proof {
            lemma_words_at_split(data@, 0, size as nat);
            lemma_words_at_split(data@, 8 * size, size as nat);
        }
        Ok((a, b))
    }

    /// Encodes a result matrix, given as its words in row-major order.
    pub fn serialize_matrix_to_bytes(&self, matrix: &[u64]) -> (r: Result<Vec<u8>, PayloadError>)
        ensures
            r matches Ok(bytes) && bytes@ == bytes_of(matrix@),
    {
        Ok(encode_words(matrix))
    }

    /// Encodes a result vector, given as its words.
    pub fn serialize_vector_to_bytes(&self, vector: &[u64]) -> (r: Result<Vec<u8>, PayloadError>)
        ensures
            r matches Ok(bytes) && bytes@ == bytes_of(vector@),
    {
        Ok(encode_words(vector))
    }
}

/// What a computation produced, before it is reported as a task result.
#[derive(Clone, Debug)]
pub struct ExecutionResult {
    pub data: Vec<u8>,
    pub success: bool,
    pub error: Option<String>,
    pub resource_usage: ResourceUsage,
}

/// The message of a failed execution that gave no reason.
pub open spec fn unknown_error_message() -> Seq<char> {
    "未知执行错误"@
}

impl TaskResult {
    /// The task result reporting an execution of `execution_time_ms`
    /// milliseconds: successful with the produced data, or failed with the
    /// execution's error message ("未知执行错误" when it gave none).
    pub fn from_execution(
        task_id: String,
        provider_id: String,
        execution: ExecutionResult,
        execution_time_ms: u64,
    ) -> (r: TaskResult)
        ensures
            r.task_id@ == task_id@,
            r.provider_id@ == provider_id@,
            r.execution_time_ms == execution_time_ms,
            r.success == execution.success,
            r.resource_usage == execution.resource_usage,
            execution.success ==> r.result@ == execution.data@ && r.error_message is None,
            !execution.success ==> r.result@.len() == 0 && (r.error_message matches Some(m)
                && m@ == match execution.error {
                    Some(e) => e@,
                    None => unknown_error_message(),
                }),
    {
        if execution.success {
            TaskResult::success(task_id, provider_id, execution.data, execution_time_ms, execution.resource_usage)
        } else {
            let message = match execution.error {
                Some(e) => e,
                None => String::from_str("未知执行错误"),
            };
            TaskResult::failure(task_id, provider_id, message, execution_time_ms, execution.resource_usage)
        }
    }
}

/// The message of a task aborted by early-termination cheating.
pub open spec fn early_termination_message() -> Seq<char> {
    "任务被提前终止（模拟作弊行为）"@
}

impl TaskResult {
    /// The result a provider reports for a task it aborted as a cheater:
    /// failed after `execution_time_ms` milliseconds, with the message
    /// "任务被提前终止（模拟作弊行为）", no output and no resource usage.
    pub fn early_termination(task_id: String, provider_id: String, execution_time_ms: u64) -> (r: TaskResult)
        ensures
            r.task_id@ == task_id@,
            r.provider_id@ == provider_id@,
            r.execution_time_ms == execution_time_ms,
            !r.success,
            r.result@.len() == 0,
            r.error_message matches Some(m) && m@ == early_termination_message(),
            r.resource_usage == (ResourceUsage {
                cpu_usage_percent: 0, memory_usage_mb: 0, gpu_memory_usage_mb: None, network_usage_kb: 0,
            }),
    {
        TaskResult::failure(
            task_id,
            provider_id,
            String::from_str("任务被提前终止（模拟作弊行为）"),
            execution_time_ms,
            ResourceUsage::default(),
        )
    }
}

impl ExecutionResult {
    /// What a wrong-result cheater reports instead of this execution: a
    /// corrupted copy of its data (see `generate_wrong_result`), claimed as a
    /// success without error, with the given (abnormal) resource usage.
    pub fn corrupted(&self, abnormal_usage: ResourceUsage) -> (r: ExecutionResult)
        ensures
            exists|draws: Seq<(usize, u8)>|
                valid_draws(self.data@.len(), draws) && r.data@ == #[trigger] overwritten(self.data@, draws),
            r.data@.len() == self.data@.len(),
            exists|positions: Seq<int>|
                positions.len() <= 3 && #[trigger] differs_only_at(r.data@, self.data@, positions),
            self.data@.len() > 0 ==> r.data@ != self.data@,
            r.success,
            r.error is None,
            r.resource_usage == abnormal_usage,
    {
        ExecutionResult {
            data: CheatingSimulator::generate_wrong_result(self.data.as_slice()),
            success: true,
            error: None,
            resource_usage: abnormal_usage,
        }
    }
}

/// `r` reports an execution `e` of `ms` milliseconds as `from_execution`
/// does.
pub open spec fn reports_execution(r: TaskResult, task_id: Seq<char>, provider_id: Seq<char>, e: ExecutionResult, ms: u64) -> bool {
    &&& r.task_id@ == task_id
    &&& r.provider_id@ == provider_id
    &&& r.execution_time_ms == ms
    &&& r.success == e.success
    &&& r.resource_usage == e.resource_usage
    &&& e.success ==> r.result@ == e.data@ && r.error_message is None
    &&& !e.success ==> r.result@.len() == 0 && (r.error_message matches Some(m)
        && m@ == match e.error {
            Some(x) => x@,
            None => unknown_error_message(),
        })
}

/// `r` reports a task aborted after `ms` milliseconds as `early_termination`
/// does.
pub open spec fn reports_abort(r: TaskResult, task_id: Seq<char>, provider_id: Seq<char>, ms: u64) -> bool {
    &&& r.task_id@ == task_id
    &&& r.provider_id@ == provider_id
    &&& r.execution_time_ms == ms
    &&& !r.success
    &&& r.result@.len() == 0
    &&& r.error_message matches Some(m) && m@ == early_termination_message()
    &&& r.resource_usage == (ResourceUsage {
        cpu_usage_percent: 0, memory_usage_mb: 0, gpu_memory_usage_mb: None, network_usage_kb: 0,
    })
}

/// `c` is what `corrupted` can make of `e` with usage `u`.
pub open spec fn corruption_of(c: ExecutionResult, e: ExecutionResult, u: ResourceUsage) -> bool {
    &&& c.success
    &&& c.error is None
    &&& c.resource_usage == u
    &&& exists|draws: Seq<(usize, u8)>|
        valid_draws(e.data@.len(), draws) && c.data@ == #[trigger] overwritten(e.data@, draws)
}

/// The result a provider reports at the end of executing a task, after
/// `execution_time_ms` milliseconds: `computed` is `None` when it aborted
/// the task before computing (it reports the abort), else what the
/// computation produced; `corruption` is `Some(usage)` when it corrupts that
/// result and reports `usage` (it reports the corrupted copy as a success),
/// `None` when it reports the computation as it is.
pub fn finish_execution(
    task_id: String,
    provider_id: String,
    computed: Option<ExecutionResult>,
    corruption: Option<ResourceUsage>,
    execution_time_ms: u64,
) -> (r: TaskResult)
    ensures
        match computed {
            None => reports_abort(r, task_id@, provider_id@, execution_time_ms),
            Some(e) => match corruption {
                None => reports_execution(r, task_id@, provider_id@, e, execution_time_ms),
                Some(u) => exists|c: ExecutionResult|
                    corruption_of(c, e, u) && #[trigger] reports_execution(r, task_id@, provider_id@, c, execution_time_ms),
            },
        },
{
    match computed {
        None => TaskResult::early_termination(task_id, provider_id, execution_time_ms),
        Some(e) => match corruption {
            None => TaskResult::from_execution(task_id, provider_id, e, execution_time_ms),
            Some(u) => {
                let c = e.corrupted(u);
                let ghost cg = c;
                let r = TaskResult::from_execution(task_id, provider_id, c, execution_time_ms);
                assert(corruption_of(cg, e, u));
                assert(reports_execution(r, task_id@, provider_id@, cg, execution_time_ms));
                r
            },
        },
    }
}

/// A task to be executed by a provider, with the provider's cheating
/// behaviour, if any.
#[derive(Clone, Debug)]
pub struct TaskExecution {
    pub task: ConsensusTask,
    pub provider_id: String,
    pub cheating_mode: Option<CheatingMode>,
}

impl TaskExecution {
    /// Bundles a task with the executing provider and its cheating mode.
    pub fn new(task: ConsensusTask, provider_id: String, cheating_mode: Option<CheatingMode>) -> (e: Self)
        ensures
            e.task == task,
            e.provider_id == provider_id,
            e.cheating_mode == cheating_mode,
    {
        TaskExecution { task, provider_id, cheating_mode }
    }
}

} // verus!
