//! The state behind the monitoring API: the latest status of each provider,
//! a bounded history of task results and the latest consensus statistics.
//! Serving it over HTTP and WebSocket is done by the application.

use vstd::prelude::*;
use crate::cheating::CheatingStatistics;
use crate::clock::{utc_now, Timestamp};
use crate::consensus_client::ConsensusStats;
use crate::text::same_text;
use crate::types::{provider_status_name, ProviderStatus, TaskResult};

verus! {

/// The most task results the history keeps.
pub const MAX_TASK_HISTORY: usize = 1000;

/// Status of one provider as reported by the API.
#[derive(Clone, Debug)]
pub struct ProviderStatusInfo {
    pub provider_id: String,
    pub name: String,
    pub status: ProviderStatus,
    pub active_tasks: usize,
    pub total_completed_tasks: usize,
    pub cheating_stats: Option<CheatingStatistics>,
    /// GPU memory in GB, as the bit pattern of an `f64`.
    pub gpu_memory_gb: u64,
    pub cpu_cores: u32,
    pub last_updated: Timestamp,
}

impl ProviderStatusInfo {
    /// A provider that is starting, with no tasks and no cheating statistics,
    /// updated now.
    pub fn new(provider_id: &str, name: &str, gpu_memory_gb: u64, cpu_cores: u32) -> (i: Self)
        ensures
            i.provider_id@ == provider_id@,
            i.name@ == name@,
            i.status is Starting,
            i.active_tasks == 0,
            i.total_completed_tasks == 0,
            i.cheating_stats is None,
            i.gpu_memory_gb == gpu_memory_gb,
            i.cpu_cores == cpu_cores,
    {
        ProviderStatusInfo {
            provider_id: String::from_str(provider_id),
            name: String::from_str(name),
            status: ProviderStatus::Starting,
            active_tasks: 0,
            total_completed_tasks: 0,
            cheating_stats: None,
            gpu_memory_gb,
            cpu_cores,
            last_updated: utc_now(),
        }
    }
}

/// A requested change to a provider's entry: each field that is given
/// replaces the stored one.  GPU memory is the bit pattern of an `f64`.
#[derive(Clone, Debug)]
pub struct ProviderUpdate {
    pub name: Option<String>,
    pub status: Option<ProviderStatus>,
    pub gpu_memory_gb: Option<u64>,
    pub cpu_cores: Option<u32>,
}

/// No key occurs twice among the entries.
pub open spec fn keys_unique(es: Seq<(String, ProviderStatusInfo)>) -> bool {
    forall|i: int, j: int| 0 <= i < j < es.len() ==> es[i].0@ != es[j].0@
}

/// The value stored under `key`, if any (the last entry with that key).
pub open spec fn lookup(es: Seq<(String, ProviderStatusInfo)>, key: Seq<char>) -> Option<ProviderStatusInfo>
    decreases es.len(),
{
    if es.len() == 0 {
        None
    } else if es.last().0@ == key {
        Some(es.last().1)
    } else {
        lookup(es.drop_last(), key)
    }
}

/// The entries after storing `info` under `key`: the entry with that key
/// gets the new value, or a new entry is appended.
pub open spec fn stored(es: Seq<(String, ProviderStatusInfo)>, key: String, info: ProviderStatusInfo) -> Seq<(String, ProviderStatusInfo)> {
    if exists|i: int| 0 <= i < es.len() && es[i].0@ == key@ {
        let i = choose|i: int| 0 <= i < es.len() && es[i].0@ == key@;
        es.update(i, (es[i].0, info))
    } else {
        es.push((key, info))
    }
}

/// The history after recording `r`: appended, and the oldest entry dropped
/// when that makes the history longer than `MAX_TASK_HISTORY`.
pub open spec fn recorded(history: Seq<TaskResult>, r: TaskResult) -> Seq<TaskResult> {
    let h = history.push(r);
    if h.len() > MAX_TASK_HISTORY { h.drop_first() } else { h }
}

/// The number of entries whose provider status has the given name.
pub open spec fn status_count(es: Seq<(String, ProviderStatusInfo)>, name: Seq<char>) -> nat
    decreases es.len(),
{
    if es.len() == 0 {
        0
    } else {
        status_count(es.drop_last(), name) + if provider_status_name(es.last().1.status) == name { 1nat } else { 0nat }
    }
}

/// The status names in the order they are counted.
pub open spec fn status_names() -> Seq<Seq<char>> {
    seq!["starting"@, "running"@, "busy"@, "paused"@, "error"@, "stopped"@]
}

/// The API server's state.
pub struct ServerState {
    providers: Vec<(String, ProviderStatusInfo)>,
    task_history: Vec<TaskResult>,
    consensus_stats: Option<ConsensusStats>,
    start_time: Timestamp,
}

proof fn lemma_lookup_at(es: Seq<(String, ProviderStatusInfo)>, i: int)
    requires
        keys_unique(es),
        0 <= i < es.len(),
    ensures
        lookup(es, es[i].0@) == Some(es[i].1),
    decreases es.len(),
{
    if i < es.len() - 1 {
        lemma_lookup_at(es.drop_last(), i);
    }
}

proof fn lemma_lookup_absent(es: Seq<(String, ProviderStatusInfo)>, key: Seq<char>)
    requires
        forall|i: int| 0 <= i < es.len() ==> es[i].0@ != key,
    ensures
        lookup(es, key) is None,
    decreases es.len(),
{
    if es.len() > 0 {
        lemma_lookup_absent(es.drop_last(), key);
    }
}

proof fn lemma_status_count_bound(es: Seq<(String, ProviderStatusInfo)>, name: Seq<char>)
    ensures
        status_count(es, name) <= es.len(),
    decreases es.len(),
{
    if es.len() > 0 {
        lemma_status_count_bound(es.drop_last(), name);
    }
}

/// Storing a value makes it the value read under its key.
pub proof fn lemma_read_after_store(es: Seq<(String, ProviderStatusInfo)>, key: String, info: ProviderStatusInfo)
    requires
        keys_unique(es),
    ensures
        keys_unique(stored(es, key, info)),
        lookup(stored(es, key, info), key@) == Some(info),
{
    let s = stored(es, key, info);
    if exists|i: int| 0 <= i < es.len() && es[i].0@ == key@ {
        let i = choose|i: int| 0 <= i < es.len() && es[i].0@ == key@;
        assert(s[i].0@ == key@);
        lemma_lookup_at(s, i);
    } else {
        lemma_lookup_at(s, es.len() as int);
    }
}

/// Storing a value under one key leaves the value under every other key.
pub proof fn lemma_store_keeps_other_keys(
    es: Seq<(String, ProviderStatusInfo)>,
    key: String,
    info: ProviderStatusInfo,
    other: Seq<char>,
)
    requires
        keys_unique(es),
        other != key@,
    ensures
        lookup(stored(es, key, info), other) == lookup(es, other),
{
    let s = stored(es, key, info);
    lemma_read_after_store(es, key, info);
    if exists|j: int| 0 <= j < es.len() && es[j].0@ == other {
        let j = choose|j: int| 0 <= j < es.len() && es[j].0@ == other;
        lemma_lookup_at(es, j);
        assert(s[j] == es[j]);
        lemma_lookup_at(s, j);
    } else {
        lemma_lookup_absent(es, other);
        lemma_lookup_absent(s, other);
    }
}

/// The history never holds more than `MAX_TASK_HISTORY` results, and
/// recording keeps the most recent ones in order, the new result last.
pub proof fn lemma_history_bounded(history: Seq<TaskResult>, r: TaskResult)
    requires
        history.len() <= MAX_TASK_HISTORY,
    ensures
        recorded(history, r).len() <= MAX_TASK_HISTORY,
        recorded(history, r).last() == r,
        history.len() < MAX_TASK_HISTORY ==> recorded(history, r) == history.push(r),
        history.len() == MAX_TASK_HISTORY ==> recorded(history, r) == history.drop_first().push(r),
{
    if history.len() == MAX_TASK_HISTORY {
        assert(history.push(r).drop_first() =~= history.drop_first().push(r));
    }
}

/// The history after recording each of `rs` in order.
pub open spec fn recorded_all(history: Seq<TaskResult>, rs: Seq<TaskResult>) -> Seq<TaskResult>
    decreases rs.len(),
{
    if rs.len() == 0 {
        history
    } else {
        recorded(recorded_all(history, rs.drop_last()), rs.last())
    }
}

/// The last `min(s.len(), MAX_TASK_HISTORY)` elements of `s`, in order.
pub open spec fn latest(s: Seq<TaskResult>) -> Seq<TaskResult> {
    if s.len() > MAX_TASK_HISTORY { s.subrange(s.len() - MAX_TASK_HISTORY, s.len() as int) } else { s }
}

/// Recording results one after another keeps exactly the most recent ones:
/// from a history of at most `MAX_TASK_HISTORY` results (an empty one, for a
/// new server), recording `rs` in order leaves the last
/// `min(n, MAX_TASK_HISTORY)` of the old history followed by `rs`, oldest
/// dropped first.  From an empty history, that is the last
/// `min(rs.len(), MAX_TASK_HISTORY)` of `rs`.
pub proof fn lemma_history_keeps_latest(history: Seq<TaskResult>, rs: Seq<TaskResult>)
    requires
        history.len() <= MAX_TASK_HISTORY,
    ensures
        recorded_all(history, rs) == latest(history + rs),
        recorded_all(history, rs).len() <= MAX_TASK_HISTORY,
        history.len() == 0 ==> recorded_all(history, rs) == latest(rs),
    decreases rs.len(),
{
    if rs.len() == 0 {
        assert(history + rs =~= history);
    } else {
        let r = rs.last();
        let front = rs.drop_last();
        lemma_history_keeps_latest(history, front);
        let prev = recorded_all(history, front);
        let all_prev = history + front;
        let all = history + rs;
        assert(all =~= all_prev.push(r));
        if all_prev.len() >= MAX_TASK_HISTORY {
            assert(prev.len() == MAX_TASK_HISTORY);
            assert(prev.push(r).drop_first() =~= all.subrange(all.len() - MAX_TASK_HISTORY, all.len() as int));
        } else {
            assert(prev =~= all_prev);
            assert(prev.push(r) =~= all);
        }
    }
    if history.len() == 0 {
        assert(history + rs =~= rs);
    }
}

/// The index of the entry with key `provider_id`, if any.
fn position_of(entries: &Vec<(String, ProviderStatusInfo)>, provider_id: &str) -> (r: Option<usize>)
    ensures
        match r {
            Some(i) => i < entries@.len() && entries@[i as int].0@ == provider_id@,
            None => forall|k: int| 0 <= k < entries@.len() ==> entries@[k].0@ != provider_id@,
        },
{
    let n = entries.len();
    let mut i: usize = 0;
    while i < n
        invariant
            n == entries@.len(),
            i <= n,
            forall|k: int| 0 <= k < i ==> entries@[k].0@ != provider_id@,
        decreases n - i,
    {
        if same_text(entries[i].0.as_str(), provider_id) {
            return Some(i);
        }
        i += 1;
    }
    None
}

impl ServerState {
    /// The state is consistent: one entry per provider id, and a history no
    /// longer than `MAX_TASK_HISTORY`.
    pub open spec fn wf(&self) -> bool {
        keys_unique(self.entries()) && self.history().len() <= MAX_TASK_HISTORY
    }

    /// Every server state is consistent.
    #[verifier::type_invariant]
    spec fn consistent(self) -> bool {
        keys_unique(self.providers@) && self.task_history@.len() <= MAX_TASK_HISTORY
    }

    /// The (provider id, status) entries.
    pub closed spec fn entries(&self) -> Seq<(String, ProviderStatusInfo)> {
        self.providers@
    }

    /// The recorded task results, oldest first.
    pub closed spec fn history(&self) -> Seq<TaskResult> {
        self.task_history@
    }

    /// The latest consensus statistics.
    pub closed spec fn stats(&self) -> Option<ConsensusStats> {
        self.consensus_stats
    }

    /// When the server started.
    pub closed spec fn started(&self) -> Timestamp {
        self.start_time
    }

    /// An empty state started at `start_time`.
    pub fn new(start_time: Timestamp) -> (s: Self)
        ensures
            s.wf(),
            s.entries().len() == 0,
            s.history().len() == 0,
            s.stats() is None,
            s.started() == start_time,
    {
        ServerState { providers: Vec::new(), task_history: Vec::new(), consensus_stats: None, start_time }
    }

    /// The (provider id, status) entries.
    pub fn providers(&self) -> (r: &Vec<(String, ProviderStatusInfo)>)
        ensures
            r@ == self.entries(),
    {
        &self.providers
    }

    /// The recorded task results, oldest first.
    pub fn task_history(&self) -> (r: &Vec<TaskResult>)
        ensures
            r@ == self.history(),
    {
        &self.task_history
    }

    /// The latest consensus statistics, if any were recorded.
    pub fn consensus_stats(&self) -> (r: &Option<ConsensusStats>)
        ensures
            *r == self.stats(),
    {
        &self.consensus_stats
    }

    /// When the server started.
    pub fn start_time(&self) -> (t: Timestamp)
        ensures
            t == self.started(),
    {
        self.start_time
    }

    /// Stores the status of a provider, replacing any earlier one.
    pub fn update_provider_status(&mut self, provider_id: String, status: ProviderStatusInfo)
        ensures
            final(self).wf(),
            final(self).entries() == stored(old(self).entries(), provider_id, status),
            final(self).history() == old(self).history(),
            final(self).stats() == old(self).stats(),
            final(self).started() == old(self).started(),
    {
        proof {
            use_type_invariant(&*self);
        }
        let ghost es = self.providers@;
        let found = position_of(&self.providers, provider_id.as_str());
        proof {
            lemma_read_after_store(es, provider_id, status);
        }
        let mut providers: Vec<(String, ProviderStatusInfo)> = Vec::new();
        std::mem::swap(&mut providers, &mut self.providers);
        match found {
            Some(i) => {
                proof {
                    assert(exists|j: int| 0 <= j < es.len() && es[j].0@ == provider_id@) by {
                        assert(es[i as int].0@ == provider_id@);
                    }
                    let j = choose|j: int| 0 <= j < es.len() && es[j].0@ == provider_id@;
                    assert(j == i) by {
                        if j < i {
                            assert(es[j].0@ == es[i as int].0@);
                        } else if j > i {
                            assert(es[i as int].0@ == es[j].0@);
                        }
                    }
                }
                let key = providers[i].0.clone();
                providers.set(i, (key, status));
                assert(providers@ =~= stored(es, provider_id, status));
            },
            None => {
                providers.push((provider_id, status));
                assert(providers@ =~= stored(es, provider_id, status));
            },
        }
        self.providers = providers;
    }

    /// The status stored for a provider, if any.
    pub fn get_provider(&self, provider_id: &str) -> (r: Option<&ProviderStatusInfo>)
        ensures
            match r {
                Some(info) => lookup(self.entries(), provider_id@) == Some(*info),
                None => lookup(self.entries(), provider_id@) is None,
            },
    {
        proof {
            use_type_invariant(self);
        }
        match position_of(&self.providers, provider_id) {
            Some(i) => {
                proof {
                    lemma_lookup_at(self.providers@, i as int);
                }
                Some(&self.providers[i].1)
            },
            None => {
                proof {
                    lemma_lookup_absent(self.providers@, provider_id@);
                }
                None
            },
        }
    }

    /// Records a task result, dropping the oldest when the history would
    /// exceed `MAX_TASK_HISTORY` results.
    pub fn add_task_result(&mut self, result: TaskResult)
        ensures
            final(self).wf(),
            final(self).history() == recorded(old(self).history(), result),
            final(self).entries() == old(self).entries(),
            final(self).stats() == old(self).stats(),
            final(self).started() == old(self).started(),
    {
        proof {
            use_type_invariant(&*self);
            lemma_history_bounded(self.task_history@, result);
        }
        let mut history: Vec<TaskResult> = Vec::new();
        std::mem::swap(&mut history, &mut self.task_history);
        history.push(result);
        if history.len() > MAX_TASK_HISTORY {
            history.remove(0);
        }
        assert(history@ =~= recorded(old(self).history(), result));
        self.task_history = history;
    }

    /// Replaces the consensus statistics.
    pub fn update_consensus_stats(&mut self, stats: &ConsensusStats)
        ensures
            final(self).wf(),
            final(self).stats() == Some(*stats),
            final(self).entries() == old(self).entries(),
            final(self).history() == old(self).history(),
            final(self).started() == old(self).started(),
    {
        proof {
            use_type_invariant(&*self);
        }
        self.consensus_stats = Some(stats.clone());
    }

    /// Applies a requested change to a provider: each field given in the
    /// update (name, status, GPU memory, CPU cores) replaces the stored one;
    /// its update time becomes now.  Returns whether the provider exists
    /// (nothing changes when it does not).
    pub fn update_provider(&mut self, provider_id: &str, update: ProviderUpdate) -> (found: bool)
        ensures
            final(self).wf(),
            found == (lookup(old(self).entries(), provider_id@) is Some),
            !found ==> final(self).entries() == old(self).entries(),
            found ==> final(self).entries().len() == old(self).entries().len()
                && (forall|k: int| 0 <= k < old(self).entries().len() ==> final(self).entries()[k].0@ == old(self).entries()[k].0@)
                && (lookup(final(self).entries(), provider_id@) matches Some(info)
                    && lookup(old(self).entries(), provider_id@) matches Some(before)
                    && info.name@ == (match update.name { Some(n) => n@, None => before.name@ })
                    && info.status == (match update.status { Some(st) => st, None => before.status })
                    && info.gpu_memory_gb == (match update.gpu_memory_gb { Some(g) => g, None => before.gpu_memory_gb })
                    && info.cpu_cores == (match update.cpu_cores { Some(c) => c, None => before.cpu_cores })
                    && info.provider_id == before.provider_id
                    && info.active_tasks == before.active_tasks
                    && info.total_completed_tasks == before.total_completed_tasks
                    && info.cheating_stats == before.cheating_stats)
                && (forall|other: Seq<char>| other != provider_id@ ==> lookup(final(self).entries(), other) == lookup(old(self).entries(), other)),
            final(self).history() == old(self).history(),
            final(self).stats() == old(self).stats(),
            final(self).started() == old(self).started(),
    {
        proof {
            use_type_invariant(&*self);
        }
        let ghost es = self.providers@;
        match position_of(&self.providers, provider_id) {
            None => {
                proof {
                    lemma_lookup_absent(es, provider_id@);
                }
                false
            },
            Some(i) => {
                let mut providers: Vec<(String, ProviderStatusInfo)> = Vec::new();
                std::mem::swap(&mut providers, &mut self.providers);
                let (key, mut info) = providers.remove(i);
                let ProviderUpdate { name, status, gpu_memory_gb, cpu_cores } = update;
                match name {
                    Some(n) => { info.name = n; },
                    None => {},
                }
                match status {
                    Some(st) => { info.status = st; },
                    None => {},
                }
                match gpu_memory_gb {
                    Some(g) => { info.gpu_memory_gb = g; },
                    None => {},
                }
                match cpu_cores {
                    Some(c) => { info.cpu_cores = c; },
                    None => {},
                }
                info.last_updated = utc_now();
                let ghost new_info = info;
                providers.insert(i, (key, info));
                proof {
                    let ns = providers@;
                    assert(ns =~= es.update(i as int, (es[i as int].0, new_info)));
                    assert(keys_unique(ns));
                    lemma_lookup_at(es, i as int);
                    lemma_lookup_at(ns, i as int);
                    assert forall|other: Seq<char>| other != provider_id@ implies lookup(ns, other) == lookup(es, other) by {
                        if exists|j: int| 0 <= j < es.len() && es[j].0@ == other {
                            let j = choose|j: int| 0 <= j < es.len() && es[j].0@ == other;
                            lemma_lookup_at(es, j);
                            lemma_lookup_at(ns, j);
                        } else {
                            lemma_lookup_absent(es, other);
                            lemma_lookup_absent(ns, other);
                        }
                    }
                }
                self.providers = providers;
                true
            },
        }
    }

    /// The recorded results of one provider, oldest first.
    pub fn provider_tasks(&self, provider_id: &str) -> (r: Vec<&TaskResult>)
        ensures
            r@.len() == results_of(self.history(), provider_id@).len(),
            forall|k: int| 0 <= k < r@.len() ==> *r@[k] == results_of(self.history(), provider_id@)[k],
    {
        let n = self.task_history.len();
        let mut r: Vec<&TaskResult> = Vec::new();
        let mut i: usize = 0;
        while i < n
            invariant
                n == self.task_history@.len(),
                i <= n,
                r@.len() == results_of(self.task_history@.take(i as int), provider_id@).len(),
                forall|k: int| 0 <= k < r@.len() ==> *r@[k] == results_of(self.task_history@.take(i as int), provider_id@)[k],
            decreases n - i,
        {
            assert(self.task_history@.take(i + 1).drop_last() =~= self.task_history@.take(i as int));
            if same_text(self.task_history[i].provider_id.as_str(), provider_id) {
                r.push(&self.task_history[i]);
            }
            i += 1;
        }
        assert(self.task_history@.take(n as int) =~= self.task_history@);
        r
    }

    /// How many recorded results succeeded (`true`) or failed (`false`).
    pub fn count_tasks_with_outcome(&self, success: bool) -> (c: usize)
        ensures
            c == outcome_count(self.history(), success),
    {
        let n = self.task_history.len();
        let mut c: usize = 0;
        let mut i: usize = 0;
        while i < n
            invariant
                n == self.task_history@.len(),
                i <= n,
                c == outcome_count(self.task_history@.take(i as int), success),
                c <= i,
            decreases n - i,
        {
            assert(self.task_history@.take(i + 1).drop_last() =~= self.task_history@.take(i as int));
            if self.task_history[i].success == success {
                c += 1;
            }
            i += 1;
        }
        assert(self.task_history@.take(n as int) =~= self.task_history@);
        c
    }

    /// How many providers are in each status, for the statuses that occur,
    /// in the order starting, running, busy, paused, error, stopped.
    pub fn count_providers_by_status(&self) -> (r: Vec<(String, usize)>)
        ensures
            r@.len() == status_tally(self.entries(), 6).len(),
            forall|k: int| 0 <= k < r@.len() ==> r@[k].0@ == status_tally(self.entries(), 6)[k].0
                && r@[k].1 == status_tally(self.entries(), 6)[k].1,
    {
        let names: [&str; 6] = ["starting", "running", "busy", "paused", "error", "stopped"];
        proof {
            reveal_strlit("starting");
            reveal_strlit("running");
            reveal_strlit("busy");
            reveal_strlit("paused");
            reveal_strlit("error");
            reveal_strlit("stopped");
            assert(names@.len() == 6);
        }
        let mut r: Vec<(String, usize)> = Vec::new();
        let mut k: usize = 0;
        while k < 6
            invariant
                k <= 6,
                forall|j: int| 0 <= j < 6 ==> names@[j]@ == status_names()[j],
                r@.len() == status_tally(self.entries(), k as nat).len(),
                forall|j: int| 0 <= j < r@.len() ==> r@[j].0@ == status_tally(self.entries(), k as nat)[j].0
                    && r@[j].1 == status_tally(self.entries(), k as nat)[j].1,
            decreases 6 - k,
        {
            let name = names[k];
            let c = self.count_status(name);
            if c > 0 {
                r.push((String::from_str(name), c));
            }
            k += 1;
        }
        r
    }

    fn count_status(&self, name: &str) -> (c: usize)
        ensures
            c == status_count(self.entries(), name@),
    {
        let n = self.providers.len();
        let mut c: usize = 0;
        let mut i: usize = 0;
        while i < n
            invariant
                n == self.providers@.len(),
                i <= n,
                c == status_count(self.providers@.take(i as int), name@),
            decreases n - i,
        {
            proof {
                lemma_status_count_bound(self.providers@.take(i as int), name@);
            }
            assert(self.providers@.take(i + 1).drop_last() =~= self.providers@.take(i as int));
            if same_text(self.providers[i].1.status.as_str(), name) {
                c += 1;
            }
            i += 1;
        }
        assert(self.providers@.take(n as int) =~= self.providers@);
        c
    }

    /// Total execution time of the recorded results; the sum must fit `u64`.
    pub fn total_execution_time_ms(&self) -> (t: u64)
        requires
            time_sum(self.history()) <= u64::MAX,
        ensures
            t == time_sum(self.history()),
    {
        let n = self.task_history.len();
        let mut t: u64 = 0;
        let mut i: usize = 0;
        while i < n
            invariant
                n == self.task_history@.len(),
                i <= n,
                time_sum(self.task_history@) <= u64::MAX,
                t == time_sum(self.task_history@.take(i as int)),
            decreases n - i,
        {
            assert(self.task_history@.take(i + 1).drop_last() =~= self.task_history@.take(i as int));
            proof {
                lemma_time_sum_prefix(self.task_history@, i + 1);
            }
            t = t + self.task_history[i].execution_time_ms;
            i += 1;
        }
        assert(self.task_history@.take(n as int) =~= self.task_history@);
        t
    }

    /// Clears the history and the consensus statistics, and resets every
    /// provider's task counters and cheating statistics (update time now).
    pub fn reset_stats(&mut self)
        ensures
            final(self).wf(),
            final(self).history().len() == 0,
            final(self).stats() is None,
            final(self).started() == old(self).started(),
            final(self).entries().len() == old(self).entries().len(),
            forall|k: int| 0 <= k < final(self).entries().len() ==> {
                let after = #[trigger] final(self).entries()[k];
                let before = old(self).entries()[k];
                &&& after.0@ == before.0@
                &&& after.1.active_tasks == 0
                &&& after.1.total_completed_tasks == 0
                &&& after.1.cheating_stats is None
                &&& after.1.provider_id@ == before.1.provider_id@
                &&& after.1.name@ == before.1.name@
                &&& after.1.status == before.1.status
                &&& after.1.gpu_memory_gb == before.1.gpu_memory_gb
                &&& after.1.cpu_cores == before.1.cpu_cores
            },
    {
        proof {
            use_type_invariant(&*self);
        }
        let ghost es = self.providers@;
        let mut providers: Vec<(String, ProviderStatusInfo)> = Vec::new();
        std::mem::swap(&mut providers, &mut self.providers);
        let n = providers.len();
        let mut i: usize = 0;
        while i < n
            invariant
                n == providers@.len(),
                n == es.len(),
                es == old(self).providers@,
                keys_unique(es),
                i <= n,
                forall|k: int| 0 <= k < n ==> #[trigger] providers@[k].0@ == es[k].0@,
                forall|k: int| i <= k < n ==> #[trigger] providers@[k] == es[k],
                forall|k: int| 0 <= k < i ==> {
                    let after = #[trigger] providers@[k];
                    let before = es[k];
                    &&& after.1.active_tasks == 0
                    &&& after.1.total_completed_tasks == 0
                    &&& after.1.cheating_stats is None
                    &&& after.1.provider_id@ == before.1.provider_id@
                    &&& after.1.name@ == before.1.name@
                    &&& after.1.status == before.1.status
                    &&& after.1.gpu_memory_gb == before.1.gpu_memory_gb
                    &&& after.1.cpu_cores == before.1.cpu_cores
                },
            decreases n - i,
        {
            let (key, mut info) = providers.remove(i);
            info.active_tasks = 0;
            info.total_completed_tasks = 0;
            info.cheating_stats = None;
            info.last_updated = utc_now();
            providers.insert(i, (key, info));
            i += 1;
        }
        assert(keys_unique(providers@));
        self.providers = providers;
        self.task_history = Vec::new();
        self.consensus_stats = None;
    }
}

/// The results recorded for a provider, in order.
pub open spec fn results_of(history: Seq<TaskResult>, provider_id: Seq<char>) -> Seq<TaskResult>
    decreases history.len(),
{
    if history.len() == 0 {
        Seq::empty()
    } else {
        let rest = results_of(history.drop_last(), provider_id);
        if history.last().provider_id@ == provider_id { rest.push(history.last()) } else { rest }
    }
}

/// The number of results with the given outcome.
pub open spec fn outcome_count(history: Seq<TaskResult>, success: bool) -> nat
    decreases history.len(),
{
    if history.len() == 0 {
        0
    } else {
        outcome_count(history.drop_last(), success) + if history.last().success == success { 1nat } else { 0nat }
    }
}

/// Whether a result has the given outcome.
pub open spec fn has_outcome(success: bool) -> spec_fn(TaskResult) -> bool {
    |r: TaskResult| r.success == success
}

/// The count for an outcome is the number of recorded results whose success
/// flag is that outcome, and the counts of successes and failures add up to
/// the number of results.
pub proof fn lemma_outcome_count_counts_matching(history: Seq<TaskResult>, success: bool)
    ensures
        outcome_count(history, success) == history.filter(has_outcome(success)).len(),
        outcome_count(history, true) + outcome_count(history, false) == history.len(),
    decreases history.len(),
{
    reveal(Seq::filter);
    if history.len() > 0 {
        lemma_outcome_count_counts_matching(history.drop_last(), success);
    }
}

/// Whether a result was reported by the given provider.
pub open spec fn by_provider(provider_id: Seq<char>) -> spec_fn(TaskResult) -> bool {
    |r: TaskResult| r.provider_id@ == provider_id
}

/// Whether an entry's provider has a status with the given name.
pub open spec fn in_status(name: Seq<char>) -> spec_fn((String, ProviderStatusInfo)) -> bool {
    |e: (String, ProviderStatusInfo)| provider_status_name(e.1.status) == name
}

/// A provider's recorded results are exactly the history's results reported
/// by that provider, in history order.
pub proof fn lemma_provider_results_filter(history: Seq<TaskResult>, provider_id: Seq<char>)
    ensures
        results_of(history, provider_id) == history.filter(by_provider(provider_id)),
    decreases history.len(),
{
    reveal(Seq::filter);
    if history.len() > 0 {
        lemma_provider_results_filter(history.drop_last(), provider_id);
    }
}

/// The number of providers counted for a status name is the number of
/// entries whose provider has a status of that name.
pub proof fn lemma_status_count_filter(es: Seq<(String, ProviderStatusInfo)>, name: Seq<char>)
    ensures
        status_count(es, name) == es.filter(in_status(name)).len(),
    decreases es.len(),
{
    reveal(Seq::filter);
    if es.len() > 0 {
        lemma_status_count_filter(es.drop_last(), name);
    }
}

/// The total execution time adds up over the history: none for an empty
/// history, a single result's own time, and the sum of the parts for a
/// history split in two.
pub proof fn lemma_time_sum_adds(a: Seq<TaskResult>, b: Seq<TaskResult>, r: TaskResult)
    ensures
        time_sum(Seq::<TaskResult>::empty()) == 0,
        time_sum(seq![r]) == r.execution_time_ms,
        time_sum(a + b) == time_sum(a) + time_sum(b),
    decreases b.len(),
{
    assert(seq![r].drop_last() =~= Seq::<TaskResult>::empty());
    if b.len() == 0 {
        assert(a + b =~= a);
    } else {
        lemma_time_sum_adds(a, b.drop_last(), r);
        assert((a + b).drop_last() =~= a + b.drop_last());
    }
}

/// The sum of the execution times of the results.
pub open spec fn time_sum(history: Seq<TaskResult>) -> nat
    decreases history.len(),
{
    if history.len() == 0 {
        0
    } else {
        time_sum(history.drop_last()) + history.last().execution_time_ms as nat
    }
}

proof fn lemma_time_sum_prefix(history: Seq<TaskResult>, i: int)
    requires
        0 <= i <= history.len(),
    ensures
        time_sum(history.take(i)) <= time_sum(history),
    decreases history.len(),
{
    if i < history.len() {
        assert(history.drop_last().take(i) =~= history.take(i));
        lemma_time_sum_prefix(history.drop_last(), i);
    } else {
        assert(history.take(i) =~= history);
    }
}

/// The (status name, number of providers) pairs for the first `k` status
/// names, leaving out names no provider has.
pub open spec fn status_tally(es: Seq<(String, ProviderStatusInfo)>, k: nat) -> Seq<(Seq<char>, nat)>
    decreases k,
{
    if k == 0 {
        Seq::empty()
    } else {
        let rest = status_tally(es, (k - 1) as nat);
        let name = status_names()[k - 1];
        let c = status_count(es, name);
        if c > 0 { rest.push((name, c)) } else { rest }
    }
}

} // verus!
