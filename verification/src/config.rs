//! Application configuration: consensus settings, provider nodes, task-type
//! size bounds and logging, with the validation rules that a configuration
//! must pass before a node is started.

use vstd::prelude::*;
use crate::cheating::{CheatingMode, THREE_TENTHS_BITS};
use crate::text::same_text;

verus! {

/// Why a configuration was rejected.
#[derive(Clone, Debug)]
pub enum ConfigError {
    /// Two providers share this node id.
    DuplicateProviderId { node_id: String },
    /// Two providers share this API port.
    DuplicateApiPort { port: u16 },
    /// The named task type has a minimum size above its default size.
    MinAboveDefault { task_type: String },
    /// The named task type has a default size above its maximum size.
    DefaultAboveMax { task_type: String },
    /// The named task type has a minimum size of zero.
    ZeroMinSize { task_type: String },
    /// The task timeout is zero.
    ZeroTaskTimeout,
    /// The maximum number of concurrent tasks is zero.
    ZeroMaxConcurrentTasks,
    /// The number of result submission retries is zero.
    ZeroSubmitRetries,
    /// A size parameter lies below the configured minimum.
    BelowMinimum { value: usize, min: usize },
    /// A size parameter lies above the configured maximum.
    AboveMaximum { value: usize, max: usize },
}

/// A configuration error with its texts as character sequences.
pub enum ConfigFault {
    DuplicateProviderId { node_id: Seq<char> },
    DuplicateApiPort { port: u16 },
    MinAboveDefault { task_type: Seq<char> },
    DefaultAboveMax { task_type: Seq<char> },
    ZeroMinSize { task_type: Seq<char> },
    ZeroTaskTimeout,
    ZeroMaxConcurrentTasks,
    ZeroSubmitRetries,
    BelowMinimum { value: usize, min: usize },
    AboveMaximum { value: usize, max: usize },
}

impl View for ConfigError {
    type V = ConfigFault;

    open spec fn view(&self) -> ConfigFault {
        match self {
            ConfigError::DuplicateProviderId { node_id } => ConfigFault::DuplicateProviderId { node_id: node_id@ },
            ConfigError::DuplicateApiPort { port } => ConfigFault::DuplicateApiPort { port: *port },
            ConfigError::MinAboveDefault { task_type } => ConfigFault::MinAboveDefault { task_type: task_type@ },
            ConfigError::DefaultAboveMax { task_type } => ConfigFault::DefaultAboveMax { task_type: task_type@ },
            ConfigError::ZeroMinSize { task_type } => ConfigFault::ZeroMinSize { task_type: task_type@ },
            ConfigError::ZeroTaskTimeout => ConfigFault::ZeroTaskTimeout,
            ConfigError::ZeroMaxConcurrentTasks => ConfigFault::ZeroMaxConcurrentTasks,
            ConfigError::ZeroSubmitRetries => ConfigFault::ZeroSubmitRetries,
            ConfigError::BelowMinimum { value, min } => ConfigFault::BelowMinimum { value: *value, min: *min },
            ConfigError::AboveMaximum { value, max } => ConfigFault::AboveMaximum { value: *value, max: *max },
        }
    }
}

/// The outcome of a validation, with the error seen through its view.
pub open spec fn outcome(r: Result<(), ConfigError>) -> Result<(), ConfigFault> {
    match r {
        Ok(_) => Ok(()),
        Err(e) => Err(e@),
    }
}

/// Consensus-related settings of a node.
#[derive(Clone, Debug)]
pub struct ConsensusConfig {
    pub server_endpoint: String,
    pub task_timeout_seconds: u64,
    pub max_concurrent_tasks: usize,
    pub result_submit_retries: usize,
    pub health_check_interval_seconds: u64,
}

impl Default for ConsensusConfig {
    /// Endpoint `http://localhost:3000`, 300 s timeout, 3 concurrent tasks,
    /// 3 submission retries, health checks every 60 s.
    fn default() -> (c: Self)
        ensures
            c.server_endpoint@ == "http://localhost:3000"@,
            c.task_timeout_seconds == 300,
            c.max_concurrent_tasks == 3,
            c.result_submit_retries == 3,
            c.health_check_interval_seconds == 60,
    {
        ConsensusConfig {
            server_endpoint: String::from_str("http://localhost:3000"),
            task_timeout_seconds: 300,
            max_concurrent_tasks: 3,
            result_submit_retries: 3,
            health_check_interval_seconds: 60,
        }
    }
}

/// The rule a consensus configuration must pass: timeout, concurrency and
/// retries are all non-zero, checked in that order.
pub open spec fn consensus_check(c: ConsensusConfig) -> Result<(), ConfigFault> {
    if c.task_timeout_seconds == 0 {
        Err(ConfigFault::ZeroTaskTimeout)
    } else if c.max_concurrent_tasks == 0 {
        Err(ConfigFault::ZeroMaxConcurrentTasks)
    } else if c.result_submit_retries == 0 {
        Err(ConfigFault::ZeroSubmitRetries)
    } else {
        Ok(())
    }
}

impl ConsensusConfig {
    /// Checks that timeout, concurrency and retries are non-zero.
    pub fn validate(&self) -> (r: Result<(), ConfigError>)
        ensures
            outcome(r) == consensus_check(*self),
    {
        if self.task_timeout_seconds == 0 {
            return Err(ConfigError::ZeroTaskTimeout);
        }
        if self.max_concurrent_tasks == 0 {
            return Err(ConfigError::ZeroMaxConcurrentTasks);
        }
        if self.result_submit_retries == 0 {
            return Err(ConfigError::ZeroSubmitRetries);
        }
        Ok(())
    }
}

/// Size bounds of one task type.
#[derive(Clone, Copy, Debug)]
pub struct TaskTypeConfig {
    pub default_size: usize,
    pub max_size: usize,
    pub min_size: usize,
    pub enabled: bool,
}

/// The rule a task-type configuration must pass: `0 < min <= default <= max`,
/// checked as min-versus-default, default-versus-max, then min non-zero.
pub open spec fn task_type_check(c: TaskTypeConfig, task_type: Seq<char>) -> Result<(), ConfigFault> {
    if c.min_size > c.default_size {
        Err(ConfigFault::MinAboveDefault { task_type })
    } else if c.default_size > c.max_size {
        Err(ConfigFault::DefaultAboveMax { task_type })
    } else if c.min_size == 0 {
        Err(ConfigFault::ZeroMinSize { task_type })
    } else {
        Ok(())
    }
}

/// The rule a size parameter must pass: `min <= value <= max`.
pub open spec fn parameter_check(c: TaskTypeConfig, value: usize) -> Result<(), ConfigFault> {
    if value < c.min_size {
        Err(ConfigFault::BelowMinimum { value, min: c.min_size })
    } else if value > c.max_size {
        Err(ConfigFault::AboveMaximum { value, max: c.max_size })
    } else {
        Ok(())
    }
}

impl TaskTypeConfig {
    /// Checks the size bounds; errors name `task_type`.
    pub fn validate(&self, task_type: &str) -> (r: Result<(), ConfigError>)
        ensures
            outcome(r) == task_type_check(*self, task_type@),
    {
        if self.min_size > self.default_size {
            return Err(ConfigError::MinAboveDefault { task_type: String::from_str(task_type) });
        }
        if self.default_size > self.max_size {
            return Err(ConfigError::DefaultAboveMax { task_type: String::from_str(task_type) });
        }
        if self.min_size == 0 {
            return Err(ConfigError::ZeroMinSize { task_type: String::from_str(task_type) });
        }
        Ok(())
    }

    /// Checks that `value` lies within `min_size..=max_size`.
    pub fn validate_parameter(&self, value: usize) -> (r: Result<(), ConfigError>)
        ensures
            outcome(r) == parameter_check(*self, value),
    {
        if value < self.min_size {
            return Err(ConfigError::BelowMinimum { value, min: self.min_size });
        }
        if value > self.max_size {
            return Err(ConfigError::AboveMaximum { value, max: self.max_size });
        }
        Ok(())
    }
}

/// Size bounds of all task types.
#[derive(Clone, Copy, Debug)]
pub struct TaskTypesConfig {
    pub matrix_multiplication: TaskTypeConfig,
    pub vector_addition: TaskTypeConfig,
    pub simple_inference: TaskTypeConfig,
}

/// The rule all task types must pass, checked in the order matrix
/// multiplication, vector addition, simple inference.
pub open spec fn task_types_check(c: TaskTypesConfig) -> Result<(), ConfigFault> {
    let m = task_type_check(c.matrix_multiplication, "matrix_multiplication"@);
    let v = task_type_check(c.vector_addition, "vector_addition"@);
    let s = task_type_check(c.simple_inference, "simple_inference"@);
    if m is Err { m } else if v is Err { v } else { s }
}

/// The configuration that a task-type name selects, if any.
pub open spec fn config_for(c: TaskTypesConfig, name: Seq<char>) -> Option<TaskTypeConfig> {
    if name == "matrix_multiplication"@ {
        Some(c.matrix_multiplication)
    } else if name == "vector_addition"@ {
        Some(c.vector_addition)
    } else if name == "simple_inference"@ {
        Some(c.simple_inference)
    } else {
        None
    }
}

impl Default for TaskTypesConfig {
    /// Matrix multiplication 10..=1000 (default 100), vector addition
    /// 100..=10000 (default 1000), simple inference 10..=500 (default 50),
    /// all enabled.
    fn default() -> (c: Self)
        ensures
            c.matrix_multiplication == (TaskTypeConfig { default_size: 100, max_size: 1000, min_size: 10, enabled: true }),
            c.vector_addition == (TaskTypeConfig { default_size: 1000, max_size: 10000, min_size: 100, enabled: true }),
            c.simple_inference == (TaskTypeConfig { default_size: 50, max_size: 500, min_size: 10, enabled: true }),
    {
        TaskTypesConfig {
            matrix_multiplication: TaskTypeConfig { default_size: 100, max_size: 1000, min_size: 10, enabled: true },
            vector_addition: TaskTypeConfig { default_size: 1000, max_size: 10000, min_size: 100, enabled: true },
            simple_inference: TaskTypeConfig { default_size: 50, max_size: 500, min_size: 10, enabled: true },
        }
    }
}

impl TaskTypesConfig {
    /// Validates the three task types in order.
    pub fn validate(&self) -> (r: Result<(), ConfigError>)
        ensures
            outcome(r) == task_types_check(*self),
    {
        self.matrix_multiplication.validate("matrix_multiplication")?;
        self.vector_addition.validate("vector_addition")?;
        self.simple_inference.validate("simple_inference")?;
        Ok(())
    }

    /// The configuration of the task type with the given name.
    pub fn get_config(&self, task_type: &str) -> (r: Option<&TaskTypeConfig>)
        ensures
            match r {
                Some(c) => config_for(*self, task_type@) == Some(*c),
                None => config_for(*self, task_type@) is None,
            },
    {
        if same_text(task_type, "matrix_multiplication") {
            Some(&self.matrix_multiplication)
        } else if same_text(task_type, "vector_addition") {
            Some(&self.vector_addition)
        } else if same_text(task_type, "simple_inference") {
            Some(&self.simple_inference)
        } else {
            None
        }
    }
}

/// Logging settings as they appear in the application configuration.
#[derive(Clone, Debug)]
pub struct LoggingConfig {
    pub level: String,
    pub file_enabled: bool,
    pub file_path: String,
    pub format: String,
    pub rotation: LogRotationConfig,
}

/// Log-file rotation settings as they appear in the application configuration.
#[derive(Clone, Copy, Debug)]
pub struct LogRotationConfig {
    pub max_size_bytes: u64,
    pub max_files: usize,
    pub compress: bool,
}

impl Default for LogRotationConfig {
    /// Rotate at 10 MiB, keep 5 files, compress.
    fn default() -> (c: Self)
        ensures
            c.max_size_bytes == 10 * 1024 * 1024,
            c.max_files == 5,
            c.compress,
    {
        LogRotationConfig { max_size_bytes: 10 * 1024 * 1024, max_files: 5, compress: true }
    }
}

impl Default for LoggingConfig {
    /// Level `info`, file output to `logs/consensus-provider.log`, detailed
    /// format, default rotation.
    fn default() -> (c: Self)
        ensures
            c.level@ == "info"@,
            c.file_enabled,
            c.file_path@ == "logs/consensus-provider.log"@,
            c.format@ == "detailed"@,
            c.rotation.max_size_bytes == 10 * 1024 * 1024,
            c.rotation.max_files == 5,
            c.rotation.compress,
    {
        LoggingConfig {
            level: String::from_str("info"),
            file_enabled: true,
            file_path: String::from_str("logs/consensus-provider.log"),
            format: String::from_str("detailed"),
            rotation: LogRotationConfig::default(),
        }
    }
}

/// Configuration of one provider node.  Labels are (key, value) pairs in
/// the order of the configuration; a lookup uses the first pair with its key.
#[derive(Clone, Debug)]
pub struct ProviderConfig {
    pub node_id: String,
    pub name: String,
    pub enabled: bool,
    pub cheating_mode: Option<CheatingMode>,
    pub api_port: u16,
    /// GPU memory in GB, as the bit pattern of an `f64`.
    pub gpu_memory_gb: u64,
    pub cpu_cores: u32,
    pub max_active_tasks: usize,
    pub labels: Vec<(String, String)>,
}

/// The last character of a node id, or `'0'` for an empty id.
pub open spec fn last_char_or_zero(id: Seq<char>) -> char {
    if id.len() == 0 { '0' } else { id.last() }
}

/// The code of the id's last character truncated to 16 bits.
pub open spec fn port_digit_code(id: Seq<char>) -> u16 {
    last_char_or_zero(id) as u16
}

/// The API port derived from a node id: 8080 plus the value of its last
/// character read as a digit.
pub open spec fn port_for_id(id: Seq<char>) -> int {
    8080 + port_digit_code(id) - 48
}

/// The derivation of the port neither underflows nor overflows `u16`.
pub open spec fn port_derivable(id: Seq<char>) -> bool {
    48 <= port_digit_code(id) && port_for_id(id) <= u16::MAX
}

/// `p` is a provider built by one of the constructors from these arguments,
/// with the given cheating mode and (if any) `behavior` label.
pub open spec fn built_provider(
    p: ProviderConfig,
    node_id: Seq<char>,
    name: Seq<char>,
    gpu_memory_gb: u64,
    cpu_cores: u32,
    mode: Option<CheatingMode>,
    behavior: Option<Seq<char>>,
) -> bool {
    &&& p.node_id@ == node_id
    &&& p.name@ == name
    &&& p.enabled
    &&& p.cheating_mode == mode
    &&& p.api_port == port_for_id(node_id)
    &&& p.gpu_memory_gb == gpu_memory_gb
    &&& p.cpu_cores == cpu_cores
    &&& p.max_active_tasks == 3
    &&& match behavior {
        None => p.labels@.len() == 0,
        Some(b) => p.labels@.len() == 1 && p.labels@[0].0@ == "behavior"@ && p.labels@[0].1@ == b,
    }
}

/// Whether the first label with key `key` has value `value`.
pub open spec fn label_matches(labels: Seq<(String, String)>, key: Seq<char>, value: Seq<char>) -> bool {
    exists|i: int|
        0 <= i < labels.len() && labels[i].0@ == key && labels[i].1@ == value
            && forall|k: int| 0 <= k < i ==> labels[k].0@ != key
}

/// The description of a provider's cheating mode, or of an honest node.
pub open spec fn mode_description(m: Option<CheatingMode>) -> Seq<char> {
    match m {
        Some(mode) => crate::cheating::cheating_description(mode),
        None => "诚实节点"@,
    }
}

/// Bit pattern of `0.3f64`, the early-termination probability of
/// terminating providers.
pub const TERMINATION_PROBABILITY_BITS: u64 = THREE_TENTHS_BITS;

/// Whether an API port can be derived from `node_id` (see `port_derivable`),
/// so that the provider constructors accept it.
pub fn can_derive_port(node_id: &str) -> (b: bool)
    ensures
        b == port_derivable(node_id@),
{
    let n = node_id.unicode_len();
    let c: char = if n == 0 { '0' } else { node_id.get_char(n - 1) };
    let code = c as u16;
    code >= 48 && code - 48 <= 65535 - 8080
}

fn derived_port(node_id: &str) -> (port: u16)
    requires
        port_derivable(node_id@),
    ensures
        port == port_for_id(node_id@),
{
    let n = node_id.unicode_len();
    let c: char = if n == 0 { '0' } else { node_id.get_char(n - 1) };
    let code = c as u16;
    8080 + (code - 48)
}

fn behavior_label(value: &str) -> (labels: Vec<(String, String)>)
    ensures
        labels@.len() == 1,
        labels@[0].0@ == "behavior"@,
        labels@[0].1@ == value@,
{
    let mut labels: Vec<(String, String)> = Vec::new();
    labels.push((String::from_str("behavior"), String::from_str(value)));
    labels
}

impl ProviderConfig {
    /// An honest, enabled provider whose API port is derived from the id.
    pub fn new_honest(node_id: &str, name: &str, gpu_memory_gb: u64, cpu_cores: u32) -> (p: Self)
        requires
            port_derivable(node_id@),
        ensures
            built_provider(p, node_id@, name@, gpu_memory_gb, cpu_cores, None, None),
    {
        ProviderConfig {
            node_id: String::from_str(node_id),
            name: String::from_str(name),
            enabled: true,
            cheating_mode: None,
            api_port: derived_port(node_id),
            gpu_memory_gb,
            cpu_cores,
            max_active_tasks: 3,
            labels: Vec::new(),
        }
    }

    /// A provider that returns wrong results, labelled `behavior=cheater`.
    pub fn new_cheater(node_id: &str, name: &str, gpu_memory_gb: u64, cpu_cores: u32) -> (p: Self)
        requires
            port_derivable(node_id@),
        ensures
            built_provider(p, node_id@, name@, gpu_memory_gb, cpu_cores,
                Some(CheatingMode::WrongResult), Some("cheater"@)),
    {
        ProviderConfig {
            node_id: String::from_str(node_id),
            name: String::from_str(name),
            enabled: true,
            cheating_mode: Some(CheatingMode::WrongResult),
            api_port: derived_port(node_id),
            gpu_memory_gb,
            cpu_cores,
            max_active_tasks: 3,
            labels: behavior_label("cheater"),
        }
    }

    /// A provider that delays each task by 1000 to 5000 ms, labelled
    /// `behavior=delayer`.
    pub fn new_delayer(node_id: &str, name: &str, gpu_memory_gb: u64, cpu_cores: u32) -> (p: Self)
        requires
            port_derivable(node_id@),
        ensures
            built_provider(p, node_id@, name@, gpu_memory_gb, cpu_cores,
                Some(CheatingMode::Delay { min_ms: 1000, max_ms: 5000 }), Some("delayer"@)),
    {
        ProviderConfig {
            node_id: String::from_str(node_id),
            name: String::from_str(name),
            enabled: true,
            cheating_mode: Some(CheatingMode::Delay { min_ms: 1000, max_ms: 5000 }),
            api_port: derived_port(node_id),
            gpu_memory_gb,
            cpu_cores,
            max_active_tasks: 3,
            labels: behavior_label("delayer"),
        }
    }

    /// A provider that terminates tasks early with probability 0.3, labelled
    /// `behavior=terminator`.
    pub fn new_terminator(node_id: &str, name: &str, gpu_memory_gb: u64, cpu_cores: u32) -> (p: Self)
        requires
            port_derivable(node_id@),
        ensures
            built_provider(p, node_id@, name@, gpu_memory_gb, cpu_cores,
                Some(CheatingMode::EarlyTermination { probability: TERMINATION_PROBABILITY_BITS }),
                Some("terminator"@)),
    {
        ProviderConfig {
            node_id: String::from_str(node_id),
            name: String::from_str(name),
            enabled: true,
            cheating_mode: Some(CheatingMode::EarlyTermination { probability: TERMINATION_PROBABILITY_BITS }),
            api_port: derived_port(node_id),
            gpu_memory_gb,
            cpu_cores,
            max_active_tasks: 3,
            labels: behavior_label("terminator"),
        }
    }

    /// Whether the label `key` is present with value `value`.
    pub fn has_label(&self, key: &str, value: &str) -> (b: bool)
        ensures
            b == label_matches(self.labels@, key@, value@),
    {
        let n = self.labels.len();
        let mut i: usize = 0;
        while i < n
            invariant
                n == self.labels@.len(),
                i <= n,
                forall|k: int| 0 <= k < i ==> self.labels@[k].0@ != key@,
            decreases n - i,
        {
            if same_text(self.labels[i].0.as_str(), key) {
                let b = same_text(self.labels[i].1.as_str(), value);
                proof {
                    if !b {
                        assert forall|j: int|
                            0 <= j < self.labels@.len() && self.labels@[j].0@ == key@
                                && self.labels@[j].1@ == value@ implies
                            exists|k: int| 0 <= k < j && self.labels@[k].0@ == key@ by {
                            if j > i {
                                assert(0 <= i < j && self.labels@[i as int].0@ == key@);
                            }
                        }
                    }
                }
                return b;
            }
            i += 1;
        }
        false
    }

    /// The description of this provider's cheating mode, or "诚实节点" for an
    /// honest provider.
    pub fn cheating_mode_description(&self) -> (s: &'static str)
        ensures
            s@ == mode_description(self.cheating_mode),
    {
        match &self.cheating_mode {
            Some(mode) => mode.description(),
            None => "诚实节点",
        }
    }
}

/// The complete application configuration.
#[derive(Clone, Debug)]
pub struct AppConfig {
    pub consensus: ConsensusConfig,
    pub providers: Vec<ProviderConfig>,
    pub task_types: TaskTypesConfig,
    pub logging: LoggingConfig,
}

/// Provider `i` has the node id of an earlier provider.
pub open spec fn id_repeats_at(ps: Seq<ProviderConfig>, i: int) -> bool {
    exists|j: int| 0 <= j < i && ps[j].node_id@ == ps[i].node_id@
}

/// Provider `i` has the API port of an earlier provider.
pub open spec fn port_repeats_at(ps: Seq<ProviderConfig>, i: int) -> bool {
    exists|j: int| 0 <= j < i && ps[j].api_port == ps[i].api_port
}

/// The first of the first `n` providers whose node id repeats an earlier one.
pub open spec fn first_repeated_id(ps: Seq<ProviderConfig>, n: nat) -> Option<int>
    decreases n,
{
    if n == 0 {
        None
    } else {
        let earlier = first_repeated_id(ps, (n - 1) as nat);
        if earlier is Some {
            earlier
        } else if id_repeats_at(ps, n - 1) {
            Some(n - 1)
        } else {
            None
        }
    }
}

/// The first of the first `n` providers whose API port repeats an earlier one.
pub open spec fn first_repeated_port(ps: Seq<ProviderConfig>, n: nat) -> Option<int>
    decreases n,
{
    if n == 0 {
        None
    } else {
        let earlier = first_repeated_port(ps, (n - 1) as nat);
        if earlier is Some {
            earlier
        } else if port_repeats_at(ps, n - 1) {
            Some(n - 1)
        } else {
            None
        }
    }
}

/// The rule an application configuration must pass: unique node ids, then
/// unique API ports (each reported at the first provider that repeats one),
/// then the task types, then the consensus settings.
pub open spec fn app_check(c: AppConfig) -> Result<(), ConfigFault> {
    let ps = c.providers@;
    match first_repeated_id(ps, ps.len()) {
        Some(i) => Err(ConfigFault::DuplicateProviderId { node_id: ps[i].node_id@ }),
        None => match first_repeated_port(ps, ps.len()) {
            Some(i) => Err(ConfigFault::DuplicateApiPort { port: ps[i].api_port }),
            None => {
                let t = task_types_check(c.task_types);
                if t is Err { t } else { consensus_check(c.consensus) }
            },
        },
    }
}

/// The providers that are enabled, in order.
pub open spec fn enabled_providers(ps: Seq<ProviderConfig>) -> Seq<ProviderConfig>
    decreases ps.len(),
{
    if ps.len() == 0 {
        Seq::empty()
    } else {
        let rest = enabled_providers(ps.drop_last());
        if ps.last().enabled { rest.push(ps.last()) } else { rest }
    }
}

/// Whether a provider is enabled.
pub open spec fn is_enabled() -> spec_fn(ProviderConfig) -> bool {
    |p: ProviderConfig| p.enabled
}

/// The active providers are exactly the enabled ones, in configuration order.
pub proof fn lemma_enabled_providers_filter(ps: Seq<ProviderConfig>)
    ensures
        enabled_providers(ps) == ps.filter(is_enabled()),
    decreases ps.len(),
{
    reveal(Seq::filter);
    if ps.len() > 0 {
        lemma_enabled_providers_filter(ps.drop_last());
    }
}

proof fn lemma_first_repeated_id_stays(ps: Seq<ProviderConfig>, m: nat, n: nat)
    requires
        m <= n,
        first_repeated_id(ps, m) is Some,
    ensures
        first_repeated_id(ps, n) == first_repeated_id(ps, m),
    decreases n - m,
{
    if m < n {
        lemma_first_repeated_id_stays(ps, m, (n - 1) as nat);
    }
}

proof fn lemma_first_repeated_port_stays(ps: Seq<ProviderConfig>, m: nat, n: nat)
    requires
        m <= n,
        first_repeated_port(ps, m) is Some,
    ensures
        first_repeated_port(ps, n) == first_repeated_port(ps, m),
    decreases n - m,
{
    if m < n {
        lemma_first_repeated_port_stays(ps, m, (n - 1) as nat);
    }
}

impl AppConfig {
    /// The default configuration: default consensus settings and task types,
    /// default logging, and four providers `provider-1` to `provider-4` on
    /// ports 8081 to 8084: an honest one, a cheater, a delayer and a
    /// terminator, each with 8.0 GB of GPU memory and 4 cores.
    pub fn default_config() -> (c: Self)
        ensures
            c.providers@.len() == 4,
            built_provider(c.providers@[0], "provider-1"@, "Honest Provider"@, EIGHT_GB_BITS, 4, None, None),
            built_provider(c.providers@[1], "provider-2"@, "Dishonest Provider (Wrong Result)"@,
                EIGHT_GB_BITS, 4, Some(CheatingMode::WrongResult), Some("cheater"@)),
            built_provider(c.providers@[2], "provider-3"@, "Dishonest Provider (Delay)"@,
                EIGHT_GB_BITS, 4, Some(CheatingMode::Delay { min_ms: 1000, max_ms: 5000 }), Some("delayer"@)),
            built_provider(c.providers@[3], "provider-4"@, "Dishonest Provider (Early Termination)"@,
                EIGHT_GB_BITS, 4, Some(CheatingMode::EarlyTermination { probability: TERMINATION_PROBABILITY_BITS }),
                Some("terminator"@)),
            c.providers@[0].api_port == 8081,
            c.providers@[1].api_port == 8082,
            c.providers@[2].api_port == 8083,
            c.providers@[3].api_port == 8084,
            consensus_check(c.consensus) is Ok,
            task_types_check(c.task_types) is Ok,
            app_check(c) is Ok,
            c.consensus.server_endpoint@ == "http://localhost:3000"@,
            c.logging.level@ == "info"@,
    {
        proof {
            reveal_strlit("provider-1");
            reveal_strlit("provider-2");
            reveal_strlit("provider-3");
            reveal_strlit("provider-4");
        }
        let mut providers: Vec<ProviderConfig> = Vec::new();
        providers.push(ProviderConfig::new_honest("provider-1", "Honest Provider", EIGHT_GB_BITS, 4));
        providers.push(ProviderConfig::new_cheater("provider-2", "Dishonest Provider (Wrong Result)", EIGHT_GB_BITS, 4));
        providers.push(ProviderConfig::new_delayer("provider-3", "Dishonest Provider (Delay)", EIGHT_GB_BITS, 4));
        providers.push(ProviderConfig::new_terminator("provider-4", "Dishonest Provider (Early Termination)", EIGHT_GB_BITS, 4));
        let c = AppConfig {
            consensus: ConsensusConfig::default(),
            providers,
            task_types: TaskTypesConfig::default(),
            logging: LoggingConfig::default(),
        };
        proof {
            let ps = c.providers@;
            assert(ps[0].node_id@ != ps[1].node_id@ && ps[0].node_id@ != ps[2].node_id@ && ps[0].node_id@ != ps[3].node_id@
                && ps[1].node_id@ != ps[2].node_id@ && ps[1].node_id@ != ps[3].node_id@ && ps[2].node_id@ != ps[3].node_id@) by {
                assert(ps[0].node_id@[9] == '1' && ps[1].node_id@[9] == '2' && ps[2].node_id@[9] == '3' && ps[3].node_id@[9] == '4');
            }
            assert(first_repeated_id(ps, 0) is None);
            assert(first_repeated_id(ps, 1) is None);
            assert(first_repeated_id(ps, 2) is None);
            assert(first_repeated_id(ps, 3) is None);
            assert(first_repeated_id(ps, 4) is None);
            assert(first_repeated_port(ps, 0) is None);
            assert(first_repeated_port(ps, 1) is None);
            assert(first_repeated_port(ps, 2) is None);
            assert(first_repeated_port(ps, 3) is None);
            assert(first_repeated_port(ps, 4) is None);
        }
        c
    }

    /// Validates the configuration: node ids unique, API ports unique, task
    /// types valid, consensus settings valid, in that order.
    pub fn validate(&self) -> (r: Result<(), ConfigError>)
        ensures
            outcome(r) == app_check(*self),
    {
        let ghost ps = self.providers@;
        let n = self.providers.len();
        let mut i: usize = 0;
        while i < n
            invariant
                n == ps.len(),
                ps == self.providers@,
                i <= n,
                first_repeated_id(ps, i as nat) is None,
            decreases n - i,
        {
            let mut j: usize = 0;
            while j < i
                invariant
                    n == ps.len(),
                    ps == self.providers@,
                    j <= i < n,
                    first_repeated_id(ps, i as nat) is None,
                    forall|k: int| 0 <= k < j ==> ps[k].node_id@ != ps[i as int].node_id@,
                decreases i - j,
            {
                if self.providers[j].node_id == self.providers[i].node_id {
                    proof {
                        assert(id_repeats_at(ps, i as int));
                        assert(first_repeated_id(ps, (i + 1) as nat) == Some(i as int));
                        lemma_first_repeated_id_stays(ps, (i + 1) as nat, n as nat);
                    }
                    return Err(ConfigError::DuplicateProviderId { node_id: self.providers[i].node_id.clone() });
                }
                j += 1;
            }
            assert(!id_repeats_at(ps, i as int));
            i += 1;
        }
        let mut i: usize = 0;
        while i < n
            invariant
                n == ps.len(),
                ps == self.providers@,
                i <= n,
                first_repeated_id(ps, n as nat) is None,
                first_repeated_port(ps, i as nat) is None,
            decreases n - i,
        {
            let mut j: usize = 0;
            while j < i
                invariant
                    n == ps.len(),
                    ps == self.providers@,
                    j <= i < n,
                    first_repeated_id(ps, n as nat) is None,
                    first_repeated_port(ps, i as nat) is None,
                    forall|k: int| 0 <= k < j ==> ps[k].api_port != ps[i as int].api_port,
                decreases i - j,
            {
                if self.providers[j].api_port == self.providers[i].api_port {
                    proof {
                        assert(port_repeats_at(ps, i as int));
                        assert(first_repeated_port(ps, (i + 1) as nat) == Some(i as int));
                        lemma_first_repeated_port_stays(ps, (i + 1) as nat, n as nat);
                    }
                    return Err(ConfigError::DuplicateApiPort { port: self.providers[i].api_port });
                }
                j += 1;
            }
            assert(!port_repeats_at(ps, i as int));
            i += 1;
        }
        self.task_types.validate()?;
        self.consensus.validate()?;
        Ok(())
    }

    /// The first provider with the given node id.
    pub fn get_provider_config(&self, provider_id: &str) -> (r: Option<&ProviderConfig>)
        ensures
            match r {
                Some(p) => exists|i: int|
                    0 <= i < self.providers@.len() && self.providers@[i] == *p
                        && p.node_id@ == provider_id@
                        && forall|k: int| 0 <= k < i ==> self.providers@[k].node_id@ != provider_id@,
                None => forall|k: int| 0 <= k < self.providers@.len() ==> self.providers@[k].node_id@ != provider_id@,
            },
    {
        let n = self.providers.len();
        let mut i: usize = 0;
        while i < n
            invariant
                n == self.providers@.len(),
                i <= n,
                forall|k: int| 0 <= k < i ==> self.providers@[k].node_id@ != provider_id@,
            decreases n - i,
        {
            if same_text(self.providers[i].node_id.as_str(), provider_id) {
                return Some(&self.providers[i]);
            }
            i += 1;
        }
        None
    }

    /// The enabled providers, in configuration order.
    pub fn get_active_providers(&self) -> (r: Vec<&ProviderConfig>)
        ensures
            r@.len() == enabled_providers(self.providers@).len(),
            forall|k: int| 0 <= k < r@.len() ==> *r@[k] == enabled_providers(self.providers@)[k],
    {
        let n = self.providers.len();
        let mut r: Vec<&ProviderConfig> = Vec::new();
        let mut i: usize = 0;
        while i < n
            invariant
                n == self.providers@.len(),
                i <= n,
                r@.len() == enabled_providers(self.providers@.take(i as int)).len(),
                forall|k: int| 0 <= k < r@.len() ==> *r@[k] == enabled_providers(self.providers@.take(i as int))[k],
            decreases n - i,
        {
            assert(self.providers@.take(i + 1).drop_last() =~= self.providers@.take(i as int));
            if self.providers[i].enabled {
                r.push(&self.providers[i]);
            }
            i += 1;
        }
        assert(self.providers@.take(n as int) =~= self.providers@);
        r
    }
}

/// Bit pattern of `8.0f64`, the GPU memory of the default providers.
pub const EIGHT_GB_BITS: u64 = 0x4020000000000000u64;

proof fn lemma_no_repeated_id(ps: Seq<ProviderConfig>, n: nat)
    requires
        n <= ps.len(),
        first_repeated_id(ps, n) is None,
    ensures
        forall|i: int, j: int| 0 <= i < j < n ==> ps[i].node_id@ != ps[j].node_id@,
    decreases n,
{
    if n > 0 {
        lemma_no_repeated_id(ps, (n - 1) as nat);
        assert(!id_repeats_at(ps, n - 1));
    }
}

proof fn lemma_no_repeated_port(ps: Seq<ProviderConfig>, n: nat)
    requires
        n <= ps.len(),
        first_repeated_port(ps, n) is None,
    ensures
        forall|i: int, j: int| 0 <= i < j < n ==> ps[i].api_port != ps[j].api_port,
    decreases n,
{
    if n > 0 {
        lemma_no_repeated_port(ps, (n - 1) as nat);
        assert(!port_repeats_at(ps, n - 1));
    }
}

proof fn lemma_distinct_ids_pass(ps: Seq<ProviderConfig>, n: nat)
    requires
        n <= ps.len(),
        forall|i: int, j: int| 0 <= i < j < n ==> ps[i].node_id@ != ps[j].node_id@,
    ensures
        first_repeated_id(ps, n) is None,
    decreases n,
{
    if n > 0 {
        lemma_distinct_ids_pass(ps, (n - 1) as nat);
        assert(!id_repeats_at(ps, n - 1));
    }
}

proof fn lemma_distinct_ports_pass(ps: Seq<ProviderConfig>, n: nat)
    requires
        n <= ps.len(),
        forall|i: int, j: int| 0 <= i < j < n ==> ps[i].api_port != ps[j].api_port,
    ensures
        first_repeated_port(ps, n) is None,
    decreases n,
{
    if n > 0 {
        lemma_distinct_ports_pass(ps, (n - 1) as nat);
        assert(!port_repeats_at(ps, n - 1));
    }
}

proof fn lemma_repeated_id_found(ps: Seq<ProviderConfig>, n: nat)
    requires
        n <= ps.len(),
        first_repeated_id(ps, n) is Some,
    ensures
        ({
            let i = first_repeated_id(ps, n)->0;
            &&& 0 <= i < n
            &&& exists|j: int| 0 <= j < i && ps[j].node_id@ == ps[i].node_id@
        }),
    decreases n,
{
    if n > 0 && first_repeated_id(ps, (n - 1) as nat) is Some {
        lemma_repeated_id_found(ps, (n - 1) as nat);
    }
}

proof fn lemma_repeated_port_found(ps: Seq<ProviderConfig>, n: nat)
    requires
        n <= ps.len(),
        first_repeated_port(ps, n) is Some,
    ensures
        ({
            let i = first_repeated_port(ps, n)->0;
            &&& 0 <= i < n
            &&& exists|j: int| 0 <= j < i && ps[j].api_port == ps[i].api_port
        }),
    decreases n,
{
    if n > 0 && first_repeated_port(ps, (n - 1) as nat) is Some {
        lemma_repeated_port_found(ps, (n - 1) as nat);
    }
}

/// A configuration passes validation exactly when its providers have
/// pairwise distinct node ids and pairwise distinct API ports, every task
/// type has `0 < min <= default <= max`, and timeout, concurrency and retries
/// are non-zero.  A duplicate-id or duplicate-port refusal names an id or
/// port that two providers share.
pub proof fn lemma_config_valid_exactly(c: AppConfig)
    ensures
        (app_check(c) is Ok) == ({
            &&& forall|i: int, j: int| 0 <= i < j < c.providers@.len() ==> c.providers@[i].node_id@ != c.providers@[j].node_id@
            &&& forall|i: int, j: int| 0 <= i < j < c.providers@.len() ==> c.providers@[i].api_port != c.providers@[j].api_port
            &&& 0 < c.task_types.matrix_multiplication.min_size
            &&& c.task_types.matrix_multiplication.min_size <= c.task_types.matrix_multiplication.default_size
            &&& c.task_types.matrix_multiplication.default_size <= c.task_types.matrix_multiplication.max_size
            &&& 0 < c.task_types.vector_addition.min_size
            &&& c.task_types.vector_addition.min_size <= c.task_types.vector_addition.default_size
            &&& c.task_types.vector_addition.default_size <= c.task_types.vector_addition.max_size
            &&& 0 < c.task_types.simple_inference.min_size
            &&& c.task_types.simple_inference.min_size <= c.task_types.simple_inference.default_size
            &&& c.task_types.simple_inference.default_size <= c.task_types.simple_inference.max_size
            &&& c.consensus.task_timeout_seconds > 0
            &&& c.consensus.max_concurrent_tasks > 0
            &&& c.consensus.result_submit_retries > 0
        }),
        app_check(c) matches Err(ConfigFault::DuplicateProviderId { node_id }) ==> exists|i: int, j: int|
            0 <= i < j < c.providers@.len() && c.providers@[i].node_id@ == node_id && c.providers@[j].node_id@ == node_id,
        app_check(c) matches Err(ConfigFault::DuplicateApiPort { port }) ==> exists|i: int, j: int|
            0 <= i < j < c.providers@.len() && c.providers@[i].api_port == port && c.providers@[j].api_port == port,
{
    let ps = c.providers@;
    if app_check(c) is Ok {
        lemma_valid_config_properties(c);
    }
    if forall|i: int, j: int| 0 <= i < j < ps.len() ==> ps[i].node_id@ != ps[j].node_id@ {
        lemma_distinct_ids_pass(ps, ps.len());
    }
    if forall|i: int, j: int| 0 <= i < j < ps.len() ==> ps[i].api_port != ps[j].api_port {
        lemma_distinct_ports_pass(ps, ps.len());
    }
    if first_repeated_id(ps, ps.len()) is Some {
        lemma_repeated_id_found(ps, ps.len());
        let i = first_repeated_id(ps, ps.len())->0;
        let j = choose|j: int| 0 <= j < i && ps[j].node_id@ == ps[i].node_id@;
        assert(0 <= j < i < ps.len() && ps[j].node_id@ == ps[i].node_id@);
    } else if first_repeated_port(ps, ps.len()) is Some {
        lemma_repeated_port_found(ps, ps.len());
        let i = first_repeated_port(ps, ps.len())->0;
        let j = choose|j: int| 0 <= j < i && ps[j].api_port == ps[i].api_port;
        assert(0 <= j < i < ps.len() && ps[j].api_port == ps[i].api_port);
    }
}

/// A configuration that passes validation has providers with pairwise
/// distinct node ids and pairwise distinct API ports, task types with
/// `0 < min <= default <= max`, and non-zero timeout, concurrency and retries.
pub proof fn lemma_valid_config_properties(c: AppConfig)
    requires
        app_check(c) is Ok,
    ensures
        forall|i: int, j: int| 0 <= i < j < c.providers@.len() ==> c.providers@[i].node_id@ != c.providers@[j].node_id@,
        forall|i: int, j: int| 0 <= i < j < c.providers@.len() ==> c.providers@[i].api_port != c.providers@[j].api_port,
        0 < c.task_types.matrix_multiplication.min_size <= c.task_types.matrix_multiplication.default_size
            <= c.task_types.matrix_multiplication.max_size,
        0 < c.task_types.vector_addition.min_size <= c.task_types.vector_addition.default_size
            <= c.task_types.vector_addition.max_size,
        0 < c.task_types.simple_inference.min_size <= c.task_types.simple_inference.default_size
            <= c.task_types.simple_inference.max_size,
        c.consensus.task_timeout_seconds > 0,
        c.consensus.max_concurrent_tasks > 0,
        c.consensus.result_submit_retries > 0,
{
    lemma_no_repeated_id(c.providers@, c.providers@.len());
    lemma_no_repeated_port(c.providers@, c.providers@.len());
}

/// The name of every task type selects that type's size configuration.
pub proof fn lemma_config_for_task_type(c: TaskTypesConfig, t: crate::types::TaskType)
    ensures
        config_for(c, crate::types::task_type_name(t)) == Some(match t {
            crate::types::TaskType::MatrixMultiplication { .. } => c.matrix_multiplication,
            crate::types::TaskType::VectorAddition { .. } => c.vector_addition,
            crate::types::TaskType::SimpleInference { .. } => c.simple_inference,
        }),
{
    reveal_strlit("matrix_multiplication");
    reveal_strlit("vector_addition");
    reveal_strlit("simple_inference");
    assert("vector_addition"@[0] != "matrix_multiplication"@[0]);
    assert("simple_inference"@[0] != "matrix_multiplication"@[0]);
    assert("simple_inference"@[0] != "vector_addition"@[0]);
}

/// A size parameter passes the check exactly when it lies within the bounds.
pub proof fn lemma_parameter_check_bounds(c: TaskTypeConfig, value: usize)
    ensures
        (parameter_check(c, value) is Ok) == (c.min_size <= value <= c.max_size),
{
}

} // verus!
