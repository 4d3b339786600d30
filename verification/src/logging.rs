//! Logging configuration and the decisions of the logging helpers: how level,
//! format and severity names are parsed, and which level and message each
//! kind of event is logged with.  Emitting the entries is left to the
//! application's logger.

use vstd::prelude::*;
use crate::text::{decimal, joined, lowercase_of, same_text, to_lowercase, u64_to_decimal};

verus! {

/// The output format of log lines.
#[derive(Clone, Copy, Debug, PartialEq, Eq, Structural)]
pub enum LogFormat {
    /// Short lines with second timestamps.
    Simple,
    /// Millisecond timestamps, module path and target.
    Detailed,
    /// One JSON object per line.
    Json,
}

/// Logger configuration.
#[derive(Clone, Debug)]
pub struct LogConfig {
    pub level: String,
    pub file_enabled: bool,
    pub file_path: String,
    pub console_enabled: bool,
    pub format: LogFormat,
}

impl Default for LogConfig {
    /// Level `info`, file output to `logs/consensus-provider.log`, console
    /// output, detailed format.
    fn default() -> (c: Self)
        ensures
            c.level@ == "info"@,
            c.file_enabled,
            c.file_path@ == "logs/consensus-provider.log"@,
            c.console_enabled,
            c.format == LogFormat::Detailed,
    {
        LogConfig {
            level: String::from_str("info"),
            file_enabled: true,
            file_path: String::from_str("logs/consensus-provider.log"),
            console_enabled: true,
            format: LogFormat::Detailed,
        }
    }
}

/// The format a lower-cased name selects.
pub open spec fn format_named(lower: Seq<char>) -> Option<LogFormat> {
    if lower == "simple"@ {
        Some(LogFormat::Simple)
    } else if lower == "detailed"@ {
        Some(LogFormat::Detailed)
    } else if lower == "json"@ {
        Some(LogFormat::Json)
    } else {
        None
    }
}

impl LogFormat {
    /// Parses a format name, ignoring case.  Unknown names give the message
    /// "未知的日志格式: " followed by the name.
    pub fn from_str(s: &str) -> (r: Result<LogFormat, String>)
        ensures
            match format_named(lowercase_of(s@)) {
                Some(f) => r == Ok::<LogFormat, String>(f),
                None => r is Err && r->Err_0@ == "未知的日志格式: "@ + s@,
            },
    {
        let lower = to_lowercase(s);
        if same_text(lower.as_str(), "simple") {
            Ok(LogFormat::Simple)
        } else if same_text(lower.as_str(), "detailed") {
            Ok(LogFormat::Detailed)
        } else if same_text(lower.as_str(), "json") {
            Ok(LogFormat::Json)
        } else {
            Err(joined("未知的日志格式: ", s))
        }
    }
}

/// A maximum log level, as the logger filters by.
#[derive(Clone, Copy, Debug, PartialEq, Eq, Structural)]
pub enum LogLevel {
    Off,
    Error,
    Warn,
    Info,
    Debug,
    Trace,
}

/// The level a lower-cased name selects.
pub open spec fn level_named(lower: Seq<char>) -> Option<LogLevel> {
    if lower == "error"@ {
        Some(LogLevel::Error)
    } else if lower == "warn"@ {
        Some(LogLevel::Warn)
    } else if lower == "info"@ {
        Some(LogLevel::Info)
    } else if lower == "debug"@ {
        Some(LogLevel::Debug)
    } else if lower == "trace"@ {
        Some(LogLevel::Trace)
    } else if lower == "off"@ {
        Some(LogLevel::Off)
    } else {
        None
    }
}

/// Parses a log level name, ignoring case.  Unknown names give the message
/// "无效的日志级别: " followed by the name.
pub fn parse_log_level(level: &str) -> (r: Result<LogLevel, String>)
    ensures
        match level_named(lowercase_of(level@)) {
            Some(l) => r == Ok::<LogLevel, String>(l),
            None => r is Err && r->Err_0@ == "无效的日志级别: "@ + level@,
        },
{
    let lower = to_lowercase(level);
    let l = lower.as_str();
    if same_text(l, "error") {
        Ok(LogLevel::Error)
    } else if same_text(l, "warn") {
        Ok(LogLevel::Warn)
    } else if same_text(l, "info") {
        Ok(LogLevel::Info)
    } else if same_text(l, "debug") {
        Ok(LogLevel::Debug)
    } else if same_text(l, "trace") {
        Ok(LogLevel::Trace)
    } else if same_text(l, "off") {
        Ok(LogLevel::Off)
    } else {
        Err(joined("无效的日志级别: ", level))
    }
}

/// The severity of a security event.
#[derive(Clone, Copy, Debug, PartialEq, Eq, Structural)]
pub enum SecuritySeverity {
    Low,
    Medium,
    High,
    Critical,
}

/// The severity a lower-cased name selects.
pub open spec fn severity_named(lower: Seq<char>) -> Option<SecuritySeverity> {
    if lower == "low"@ {
        Some(SecuritySeverity::Low)
    } else if lower == "medium"@ {
        Some(SecuritySeverity::Medium)
    } else if lower == "high"@ {
        Some(SecuritySeverity::High)
    } else if lower == "critical"@ {
        Some(SecuritySeverity::Critical)
    } else {
        None
    }
}

impl SecuritySeverity {
    /// Parses a severity name, ignoring case.  Unknown names give the message
    /// "未知的安全严重程度: " followed by the name.
    pub fn from_str(s: &str) -> (r: Result<SecuritySeverity, String>)
        ensures
            match severity_named(lowercase_of(s@)) {
                Some(v) => r == Ok::<SecuritySeverity, String>(v),
                None => r is Err && r->Err_0@ == "未知的安全严重程度: "@ + s@,
            },
    {
        let lower = to_lowercase(s);
        let l = lower.as_str();
        if same_text(l, "low") {
            Ok(SecuritySeverity::Low)
        } else if same_text(l, "medium") {
            Ok(SecuritySeverity::Medium)
        } else if same_text(l, "high") {
            Ok(SecuritySeverity::High)
        } else if same_text(l, "critical") {
            Ok(SecuritySeverity::Critical)
        } else {
            Err(joined("未知的安全严重程度: ", s))
        }
    }
}

/// Log-file rotation settings of the logger.
#[derive(Clone, Copy, Debug)]
pub struct LogRotationConfig {
    pub max_size_bytes: u64,
    pub max_files: usize,
    pub compress: bool,
}

impl Default for LogRotationConfig {
    /// Rotate at 10 MiB, keep 5 files, compress.
    fn default() -> (c: Self)
        ensures
            c.max_size_bytes == 10 * 1024 * 1024,
            c.max_files == 5,
            c.compress,
    {
        LogRotationConfig { max_size_bytes: 10 * 1024 * 1024, max_files: 5, compress: true }
    }
}

/// The level an event is logged at.
#[derive(Clone, Copy, Debug, PartialEq, Eq, Structural)]
pub enum EntryLevel {
    Info,
    Warn,
    Error,
}

/// One line to hand to the logger.
#[derive(Clone, Debug)]
pub struct LogEntry {
    pub level: EntryLevel,
    pub message: String,
}

/// "成功" for success, "失败" otherwise.
pub open spec fn outcome_word(success: bool) -> Seq<char> {
    if success { "成功"@ } else { "失败"@ }
}

fn outcome_text(success: bool) -> (s: &'static str)
    ensures
        s@ == outcome_word(success),
{
    if success { "成功" } else { "失败" }
}

/// The message of a performance record.
pub open spec fn performance_message(operation: Seq<char>, duration_ms: u64, success: bool) -> Seq<char> {
    "性能监控 - 操作: "@ + operation + ", 耗时: "@ + decimal(duration_ms as nat) + "ms, 状态: "@
        + outcome_word(success)
}

/// A performance record: info when the operation succeeded, warning when it
/// failed.
pub fn log_performance(operation: &str, duration_ms: u64, success: bool) -> (e: LogEntry)
    ensures
        e.level == (if success { EntryLevel::Info } else { EntryLevel::Warn }),
        e.message@ == performance_message(operation@, duration_ms, success),
{
    let ms = u64_to_decimal(duration_ms);
    let message = joined("性能监控 - 操作: ", operation).concat(", 耗时: ").concat(ms.as_str())
        .concat("ms, 状态: ").concat(outcome_text(success));
    LogEntry { level: if success { EntryLevel::Info } else { EntryLevel::Warn }, message }
}

/// The message of a task execution record.
pub open spec fn task_execution_message(
    task_id: Seq<char>,
    provider_id: Seq<char>,
    task_type: Seq<char>,
    success: bool,
    execution_time_ms: u64,
) -> Seq<char> {
    "任务执行 - ID: "@ + task_id + ", Provider: "@ + provider_id + ", 类型: "@ + task_type + ", 耗时: "@
        + decimal(execution_time_ms as nat) + "ms, 状态: "@ + outcome_word(success)
}

/// A task execution record: info on success, error on failure.
pub fn log_task_execution(
    task_id: &str,
    provider_id: &str,
    task_type: &str,
    success: bool,
    execution_time_ms: u64,
) -> (e: LogEntry)
    ensures
        e.level == (if success { EntryLevel::Info } else { EntryLevel::Error }),
        e.message@ == task_execution_message(task_id@, provider_id@, task_type@, success, execution_time_ms),
{
    let ms = u64_to_decimal(execution_time_ms);
    let message = joined("任务执行 - ID: ", task_id).concat(", Provider: ").concat(provider_id)
        .concat(", 类型: ").concat(task_type).concat(", 耗时: ").concat(ms.as_str())
        .concat("ms, 状态: ").concat(outcome_text(success));
    LogEntry { level: if success { EntryLevel::Info } else { EntryLevel::Error }, message }
}

/// A consensus event record, at info level.
pub fn log_consensus_event(event_type: &str, task_id: &str, details: &str) -> (e: LogEntry)
    ensures
        e.level == EntryLevel::Info,
        e.message@ == "共识事件 - 类型: "@ + event_type@ + ", 任务: "@ + task_id@ + ", 详情: "@ + details@,
{
    let message = joined("共识事件 - 类型: ", event_type).concat(", 任务: ").concat(task_id)
        .concat(", 详情: ").concat(details);
    LogEntry { level: EntryLevel::Info, message }
}

/// The lines logged for an error with context: first the context and the
/// error, then one line per cause in the error's source chain, numbered from 1.
pub open spec fn error_report_line(context: Seq<char>, error: Seq<char>, causes: Seq<Seq<char>>, k: int) -> Seq<char> {
    if k == 0 {
        "错误上下文: "@ + context + ", 错误信息: "@ + error
    } else {
        "  原因 "@ + decimal(k as nat) + ": "@ + causes[k - 1]
    }
}

/// The characters of each string.
pub open spec fn texts(ss: Seq<String>) -> Seq<Seq<char>> {
    Seq::new(ss.len(), |i: int| ss[i]@)
}

/// The error lines for `error` (its display text) reported in `context`,
/// followed by its chain of causes (their display texts, nearest first).
pub fn log_error_with_context(context: &str, error: &str, causes: &Vec<String>) -> (es: Vec<LogEntry>)
    requires
        causes@.len() < u64::MAX,
    ensures
        es@.len() == causes@.len() + 1,
        forall|k: int| #![trigger es@[k]] 0 <= k < es@.len() ==> es@[k].level == EntryLevel::Error
            && es@[k].message@ == error_report_line(context@, error@, texts(causes@), k),
{
    let ghost cs = texts(causes@);
    let mut es: Vec<LogEntry> = Vec::new();
    let first = joined("错误上下文: ", context).concat(", 错误信息: ").concat(error);
    es.push(LogEntry { level: EntryLevel::Error, message: first });
    let n = causes.len();
    let mut i: usize = 0;
    while i < n
        invariant
            n == causes@.len(),
            n < u64::MAX,
            cs == texts(causes@),
            i <= n,
            es@.len() == i + 1,
            forall|k: int| #![trigger es@[k]] 0 <= k < es@.len() ==> es@[k].level == EntryLevel::Error
                && es@[k].message@ == error_report_line(context@, error@, cs, k),
        decreases n - i,
    {
        let depth = u64_to_decimal((i + 1) as u64);
        let line = String::from_str("  原因 ").concat(depth.as_str()).concat(": ").concat(causes[i].as_str());
        let ghost old_es = es@;
        es.push(LogEntry { level: EntryLevel::Error, message: line });
        assert(es@[i + 1].message@ == error_report_line(context@, error@, cs, i + 1));
        assert forall|k: int| #![trigger es@[k]] 0 <= k < es@.len() implies es@[k].level == EntryLevel::Error
            && es@[k].message@ == error_report_line(context@, error@, cs, k) by {
            if k < es@.len() - 1 {
                assert(es@[k] == old_es[k]);
            }
        }
        i += 1;
    }
    es
}

/// The level of a security event of the given severity.
pub open spec fn security_level(severity: SecuritySeverity) -> EntryLevel {
    match severity {
        SecuritySeverity::Low => EntryLevel::Info,
        SecuritySeverity::Medium => EntryLevel::Warn,
        _ => EntryLevel::Error,
    }
}

/// The word naming a severity in security records.
pub open spec fn severity_word(severity: SecuritySeverity) -> Seq<char> {
    match severity {
        SecuritySeverity::Low => "低"@,
        SecuritySeverity::Medium => "中"@,
        SecuritySeverity::High => "高"@,
        SecuritySeverity::Critical => "严重"@,
    }
}

/// A security event record (such as detected cheating): info for low,
/// warning for medium, error for high and critical severity.
pub fn log_security_event(event_type: &str, provider_id: &str, details: &str, severity: SecuritySeverity) -> (e: LogEntry)
    ensures
        e.level == security_level(severity),
        e.message@ == "安全事件 - 类型: "@ + event_type@ + ", Provider: "@ + provider_id@ + ", 详情: "@ + details@
            + ", 严重程度: "@ + severity_word(severity),
{
    let word = match severity {
        SecuritySeverity::Low => "低",
        SecuritySeverity::Medium => "中",
        SecuritySeverity::High => "高",
        SecuritySeverity::Critical => "严重",
    };
    let level = match severity {
        SecuritySeverity::Low => EntryLevel::Info,
        SecuritySeverity::Medium => EntryLevel::Warn,
        _ => EntryLevel::Error,
    };
    let message = joined("安全事件 - 类型: ", event_type).concat(", Provider: ").concat(provider_id)
        .concat(", 详情: ").concat(details).concat(", 严重程度: ").concat(word);
    LogEntry { level, message }
}

/// The level a component status is logged at: info for "healthy" and
/// "running", warning for "warning" and "degraded", error for "error",
/// "failed" and "critical", info for anything else.
pub open spec fn status_level(status: Seq<char>) -> EntryLevel {
    if status == "healthy"@ || status == "running"@ {
        EntryLevel::Info
    } else if status == "warning"@ || status == "degraded"@ {
        EntryLevel::Warn
    } else if status == "error"@ || status == "failed"@ || status == "critical"@ {
        EntryLevel::Error
    } else {
        EntryLevel::Info
    }
}

/// The message of a component status record.
pub open spec fn status_message(component: Seq<char>, status: Seq<char>, details: Option<Seq<char>>) -> Seq<char> {
    let head = "系统状态 - 组件: "@ + component + ", 状态: "@ + status;
    match details {
        Some(d) => head + ", 详情: "@ + d,
        None => head,
    }
}

/// A component status record.
pub fn log_system_status(component: &str, status: &str, details: Option<&str>) -> (e: LogEntry)
    ensures
        e.level == status_level(status@),
        e.message@ == status_message(component@, status@, match details {
            Some(d) => Some(d@),
            None => None,
        }),
{
    let level = if same_text(status, "healthy") || same_text(status, "running") {
        EntryLevel::Info
    } else if same_text(status, "warning") || same_text(status, "degraded") {
        EntryLevel::Warn
    } else if same_text(status, "error") || same_text(status, "failed") || same_text(status, "critical") {
        EntryLevel::Error
    } else {
        EntryLevel::Info
    };
    let head = joined("系统状态 - 组件: ", component).concat(", 状态: ").concat(status);
    let message = match details {
        Some(d) => head.concat(", 详情: ").concat(d),
        None => head,
    };
    LogEntry { level, message }
}

/// What the logger is set up with: the level filter, the line format, the
/// file the lines go to (if any), and the lines announcing the setup.
#[derive(Clone, Debug)]
pub struct LoggingSetup {
    pub level: LogLevel,
    pub format: LogFormat,
    pub log_file: Option<String>,
    pub announcements: Vec<LogEntry>,
}

/// The lines announcing a logger setup.
pub open spec fn announcement_lines(config: LogConfig) -> Seq<Seq<char>> {
    seq![
        "日志系统已初始化"@,
        "日志级别: "@ + config.level@,
        "文件输出: "@ + if config.file_enabled { config.file_path@ } else { "禁用"@ },
        "控制台输出: "@ + if config.console_enabled { "启用"@ } else { "禁用"@ },
    ]
}

/// The logger setup for a configuration: its level must parse (else the
/// level error is returned); lines go to the configured file when file output
/// is enabled; four info lines announce the setup.
pub fn logging_setup(config: &LogConfig) -> (r: Result<LoggingSetup, String>)
    ensures
        match level_named(lowercase_of(config.level@)) {
            None => r is Err && r->Err_0@ == "无效的日志级别: "@ + config.level@,
            Some(l) => r matches Ok(setup) && {
                &&& setup.level == l
                &&& setup.format == config.format
                &&& (config.file_enabled ==> (setup.log_file matches Some(f) && f@ == config.file_path@))
                &&& (!config.file_enabled ==> setup.log_file is None)
                &&& setup.announcements@.len() == 4
                &&& forall|k: int| 0 <= k < 4 ==> setup.announcements@[k].level == EntryLevel::Info
                    && #[trigger] setup.announcements@[k].message@ == announcement_lines(*config)[k]
            },
        },
{
    let level = parse_log_level(config.level.as_str())?;
    let log_file = if config.file_enabled { Some(config.file_path.clone()) } else { None };
    let mut announcements: Vec<LogEntry> = Vec::new();
    announcements.push(LogEntry { level: EntryLevel::Info, message: String::from_str("日志系统已初始化") });
    announcements.push(LogEntry { level: EntryLevel::Info, message: joined("日志级别: ", config.level.as_str()) });
    let output = if config.file_enabled { joined("文件输出: ", config.file_path.as_str()) } else { joined("文件输出: ", "禁用") };
    announcements.push(LogEntry { level: EntryLevel::Info, message: output });
    let console = if config.console_enabled { joined("控制台输出: ", "启用") } else { joined("控制台输出: ", "禁用") };
    announcements.push(LogEntry { level: EntryLevel::Info, message: console });
    Ok(LoggingSetup { level, format: config.format, log_file, announcements })
}

/// Whether the log file must be rotated: file output is enabled, the file's
/// size could be read, and it has reached the limit.
pub fn rotation_needed(config: &LogConfig, rotation: &LogRotationConfig, file_size: Option<u64>) -> (b: bool)
    ensures
        b == (config.file_enabled && (file_size matches Some(size) && size >= rotation.max_size_bytes)),
{
    if !config.file_enabled {
        return false;
    }
    match file_size {
        Some(size) => size >= rotation.max_size_bytes,
        None => false,
    }
}

/// One file operation of a log rotation.  Backup `k` is the file named by the
/// log path followed by `.k`.
#[derive(Clone, Copy, Debug, PartialEq, Eq, Structural)]
pub enum RotationStep {
    /// Delete backup `index`, the oldest kept.
    RemoveBackup { index: usize },
    /// Rename backup `from` to backup `from + 1`.
    ShiftBackup { from: usize },
    /// Rename the current log file to backup 1.
    BackupCurrent,
}

/// The step for backup `k`, given which backups exist.
pub open spec fn backup_step(max_files: nat, exists: Seq<bool>, k: nat) -> Seq<RotationStep> {
    if !exists[k as int] {
        Seq::empty()
    } else if k == max_files - 1 {
        seq![RotationStep::RemoveBackup { index: k as usize }]
    } else {
        seq![RotationStep::ShiftBackup { from: k as usize }]
    }
}

/// The steps for backups `max_files - 1` down to `k`.
pub open spec fn backup_steps(max_files: nat, exists: Seq<bool>, k: nat) -> Seq<RotationStep>
    decreases max_files - k,
{
    if k == 0 || k >= max_files {
        Seq::empty()
    } else {
        backup_steps(max_files, exists, k + 1) + backup_step(max_files, exists, k)
    }
}

/// The rotation: from the highest backup down to backup 1, the oldest kept
/// backup (`max_files - 1`) is deleted and every other existing backup moves
/// up by one; then the current log, if it exists, becomes backup 1.
pub open spec fn rotation_plan(max_files: nat, exists: Seq<bool>, current_exists: bool) -> Seq<RotationStep> {
    backup_steps(max_files, exists, 1) + if current_exists { seq![RotationStep::BackupCurrent] } else { Seq::empty() }
}

proof fn lemma_backup_steps_targets(max_files: nat, exists: Seq<bool>, k: nat)
    requires
        exists.len() >= max_files,
        max_files <= usize::MAX,
    ensures
        forall|j: int| 0 <= j < backup_steps(max_files, exists, k).len() ==>
            match #[trigger] backup_steps(max_files, exists, k)[j] {
                RotationStep::ShiftBackup { from } => 1 <= from && from + 1 < max_files,
                RotationStep::RemoveBackup { index } => index == max_files - 1,
                RotationStep::BackupCurrent => false,
            },
    decreases max_files - k,
{
    if k != 0 && k < max_files {
        lemma_backup_steps_targets(max_files, exists, k + 1);
        let rest = backup_steps(max_files, exists, k + 1);
        let step = backup_step(max_files, exists, k);
        assert forall|j: int| 0 <= j < backup_steps(max_files, exists, k).len() implies
            match #[trigger] backup_steps(max_files, exists, k)[j] {
                RotationStep::ShiftBackup { from } => 1 <= from && from + 1 < max_files,
                RotationStep::RemoveBackup { index } => index == max_files - 1,
                RotationStep::BackupCurrent => false,
            } by {
            if j >= rest.len() {
                assert(backup_steps(max_files, exists, k)[j] == step[j - rest.len()]);
            } else {
                assert(backup_steps(max_files, exists, k)[j] == rest[j]);
            }
        }
    }
}

/// A rotation never moves a backup beyond the kept range: shifts go from
/// backups `1..max_files - 2` one up, only backup `max_files - 1` is deleted,
/// and the current log is backed up at most once, as the last step.
pub proof fn lemma_rotation_stays_in_range(max_files: nat, exists: Seq<bool>, current_exists: bool)
    requires
        exists.len() >= max_files,
        max_files <= usize::MAX,
    ensures
        forall|j: int| 0 <= j < rotation_plan(max_files, exists, current_exists).len() ==>
            match #[trigger] rotation_plan(max_files, exists, current_exists)[j] {
                RotationStep::ShiftBackup { from } => 1 <= from && from + 1 < max_files,
                RotationStep::RemoveBackup { index } => index == max_files - 1,
                RotationStep::BackupCurrent => j == rotation_plan(max_files, exists, current_exists).len() - 1,
            },
{
    lemma_backup_steps_targets(max_files, exists, 1);
    let b = backup_steps(max_files, exists, 1);
    let plan = rotation_plan(max_files, exists, current_exists);
    assert forall|j: int| 0 <= j < plan.len() implies
        match #[trigger] plan[j] {
            RotationStep::ShiftBackup { from } => 1 <= from && from + 1 < max_files,
            RotationStep::RemoveBackup { index } => index == max_files - 1,
            RotationStep::BackupCurrent => j == plan.len() - 1,
        } by {
        if j < b.len() {
            assert(plan[j] == b[j]);
        }
    }
}

/// The file a rotation step acts on: the backup it deletes or moves, 0 for
/// the current log.
pub open spec fn step_file(step: RotationStep) -> int {
    match step {
        RotationStep::RemoveBackup { index } => index as int,
        RotationStep::ShiftBackup { from } => from as int,
        RotationStep::BackupCurrent => 0,
    }
}

/// What a rotation does with an existing backup `k`: the oldest kept one,
/// `max_files - 1`, is deleted, any other moves up by one.
pub open spec fn step_for_backup(max_files: nat, k: nat) -> RotationStep {
    if k == max_files - 1 {
        RotationStep::RemoveBackup { index: k as usize }
    } else {
        RotationStep::ShiftBackup { from: k as usize }
    }
}

proof fn lemma_backup_steps_shape(max_files: nat, exists: Seq<bool>, k: nat)
    requires
        exists.len() >= max_files,
        k >= 1,
        max_files <= usize::MAX,
    ensures
        forall|j: int| 0 <= j < backup_steps(max_files, exists, k).len() ==> {
            let f = step_file(#[trigger] backup_steps(max_files, exists, k)[j]);
            &&& k <= f < max_files
            &&& exists[f]
            &&& backup_steps(max_files, exists, k)[j] == step_for_backup(max_files, f as nat)
        },
        forall|j1: int, j2: int| 0 <= j1 < j2 < backup_steps(max_files, exists, k).len() ==>
            step_file(#[trigger] backup_steps(max_files, exists, k)[j1]) > step_file(#[trigger] backup_steps(max_files, exists, k)[j2]),
        forall|f: int| k <= f < max_files && #[trigger] exists[f] ==>
            exists|j: int| 0 <= j < backup_steps(max_files, exists, k).len() && step_file(backup_steps(max_files, exists, k)[j]) == f,
    decreases max_files - k,
{
    if k < max_files {
        lemma_backup_steps_shape(max_files, exists, k + 1);
        let rest = backup_steps(max_files, exists, k + 1);
        let step = backup_step(max_files, exists, k);
        let b = backup_steps(max_files, exists, k);
        assert(b == rest + step);
        assert forall|j: int| 0 <= j < b.len() implies {
            let f = step_file(#[trigger] b[j]);
            &&& k <= f < max_files
            &&& exists[f]
            &&& b[j] == step_for_backup(max_files, f as nat)
        } by {
            if j < rest.len() {
                assert(b[j] == rest[j]);
            } else {
                assert(b[j] == step[j - rest.len()]);
            }
        }
        assert forall|j1: int, j2: int| 0 <= j1 < j2 < b.len() implies
            step_file(#[trigger] b[j1]) > step_file(#[trigger] b[j2]) by {
            assert(b[j1] == rest[j1]);
            if j2 < rest.len() {
                assert(b[j2] == rest[j2]);
            } else {
                assert(b[j2] == step[j2 - rest.len()]);
            }
        }
        assert forall|f: int| k <= f < max_files && #[trigger] exists[f] implies
            exists|j: int| 0 <= j < b.len() && step_file(b[j]) == f by {
            if f == k {
                assert(step_file(b[b.len() - 1]) == f);
            } else {
                let j = choose|j: int| 0 <= j < rest.len() && step_file(rest[j]) == f;
                assert(b[j] == rest[j]);
            }
        }
    }
}

/// A rotation handles every existing backup and overwrites none: each
/// existing backup `k` below `max_files` gets its step (the oldest kept one
/// deleted, every other moved up by one); only existing files are touched;
/// the steps go from the highest backup down, so a backup is moved only
/// after the backup above it, if there is one, has been moved or deleted;
/// and the current log, when it exists, becomes backup 1 last, after
/// backup 1 has made room.
pub proof fn lemma_rotation_moves_every_backup(max_files: nat, exists: Seq<bool>, current_exists: bool)
    requires
        exists.len() >= max_files,
        max_files <= usize::MAX,
    ensures
        forall|k: int| 1 <= k < max_files && #[trigger] exists[k] ==>
            rotation_plan(max_files, exists, current_exists).contains(step_for_backup(max_files, k as nat)),
        forall|j: int| 0 <= j < rotation_plan(max_files, exists, current_exists).len()
            && !(#[trigger] rotation_plan(max_files, exists, current_exists)[j] is BackupCurrent)
            ==> exists[step_file(rotation_plan(max_files, exists, current_exists)[j])],
        forall|j1: int, j2: int| 0 <= j1 < j2 < rotation_plan(max_files, exists, current_exists).len() ==>
            step_file(#[trigger] rotation_plan(max_files, exists, current_exists)[j1])
                > step_file(#[trigger] rotation_plan(max_files, exists, current_exists)[j2]),
        forall|j: int| 0 <= j < rotation_plan(max_files, exists, current_exists).len()
            && 1 <= step_file(#[trigger] rotation_plan(max_files, exists, current_exists)[j]) + 1 < max_files
            && exists[step_file(rotation_plan(max_files, exists, current_exists)[j]) + 1]
            ==> exists|i: int| 0 <= i < j
                && step_file(rotation_plan(max_files, exists, current_exists)[i]) == step_file(rotation_plan(max_files, exists, current_exists)[j]) + 1,
        current_exists <==> rotation_plan(max_files, exists, current_exists).contains(RotationStep::BackupCurrent),
{
    let b = backup_steps(max_files, exists, 1);
    let plan = rotation_plan(max_files, exists, current_exists);
    lemma_backup_steps_shape(max_files, exists, 1);
    assert forall|j: int| 0 <= j < b.len() implies plan[j] == b[j] by {}
    if current_exists {
        assert(plan[plan.len() - 1] == RotationStep::BackupCurrent);
        assert(plan.len() == b.len() + 1);
    } else {
        assert(plan =~= b);
        assert forall|j: int| 0 <= j < plan.len() implies plan[j] != RotationStep::BackupCurrent by {
            assert(step_file(b[j]) >= 1);
        }
    }
    assert forall|k: int| 1 <= k < max_files && #[trigger] exists[k] implies
        plan.contains(step_for_backup(max_files, k as nat)) by {
        let j = choose|j: int| 0 <= j < b.len() && step_file(b[j]) == k;
        assert(plan[j] == step_for_backup(max_files, k as nat));
    }
    assert forall|j: int| 0 <= j < plan.len() && !(#[trigger] plan[j] is BackupCurrent) implies exists[step_file(plan[j])] by {
        if j >= b.len() {
            assert(plan[j] == RotationStep::BackupCurrent);
        }
    }
    assert forall|j1: int, j2: int| 0 <= j1 < j2 < plan.len() implies
        step_file(#[trigger] plan[j1]) > step_file(#[trigger] plan[j2]) by {
        assert(step_file(b[j1]) >= 1);
        if j2 >= b.len() {
            assert(plan[j2] == RotationStep::BackupCurrent);
        }
    }
    assert forall|j: int| 0 <= j < plan.len()
        && 1 <= step_file(#[trigger] plan[j]) + 1 < max_files
        && exists[step_file(plan[j]) + 1]
        implies exists|i: int| 0 <= i < j && step_file(plan[i]) == step_file(plan[j]) + 1 by {
        let f = step_file(plan[j]) + 1;
        let i = choose|i: int| 0 <= i < b.len() && step_file(b[i]) == f;
        assert(plan[i] == b[i]);
        if i >= j {
            if i > j {
                if j < b.len() {
                    assert(step_file(b[j]) > step_file(b[i]));
                }
            }
        }
    }
}

/// The file operations that rotate the log, given `backup_exists[k]`, whether
/// backup `k` exists (for `k` below `max_files`; entry 0 is not read), and
/// whether the current log exists.
pub fn rotation_steps(max_files: usize, backup_exists: &Vec<bool>, current_exists: bool) -> (steps: Vec<RotationStep>)
    requires
        backup_exists@.len() >= max_files,
    ensures
        steps@ == rotation_plan(max_files as nat, backup_exists@, current_exists),
{
    let mut steps: Vec<RotationStep> = Vec::new();
    let mut i: usize = max_files;
    while i > 1
        invariant
            backup_exists@.len() >= max_files,
            1 <= i <= max_files || (i == max_files && max_files <= 1),
            steps@ == backup_steps(max_files as nat, backup_exists@, i as nat),
        decreases i,
    {
        i -= 1;
        if backup_exists[i] {
            if i == max_files - 1 {
                steps.push(RotationStep::RemoveBackup { index: i });
            } else {
                steps.push(RotationStep::ShiftBackup { from: i });
            }
        }
        assert(steps@ =~= backup_steps(max_files as nat, backup_exists@, i as nat));
    }
    assert(steps@ =~= backup_steps(max_files as nat, backup_exists@, 1));
    if current_exists {
        steps.push(RotationStep::BackupCurrent);
    }
    assert(steps@ =~= rotation_plan(max_files as nat, backup_exists@, current_exists));
    steps
}

} // verus!
