//! Bookkeeping of the collector registry: the jobs it knows and the
//! events it reports about them.
use vstd::prelude::*;
use crate::collector::traits::{CollectorError, collector_error_text};
use crate::storage::error::join_text;
use crate::storage::types::{Event, EventKind, EventPayload, EventSeverity, EventSource, MetricCategory};
use crate::tags::{TagMap, sorted_entries};
use crate::text::{decimal, u128_text};

verus! {

broadcast use vstd::string::group_string_axioms;

/// Metadata about a registered job.
#[derive(Debug)]
pub struct JobInfo {
    /// Job identifier (the UUID as a number).
    pub id: u128,
    /// Category of the collector.
    pub category: MetricCategory,
    /// Collector name.
    pub name: String,
    /// Metric series identifier.
    pub metric_series_id: u64,
    /// Schedule description.
    pub schedule: String,
}

/// What a job's metadata holds: category, name, series and schedule.
pub type JobView = (MetricCategory, Seq<char>, u64, Seq<char>);

/// The metadata of a job, without its identifier.
pub open spec fn job_view(j: JobInfo) -> JobView {
    (j.category, j.name@, j.metric_series_id, j.schedule@)
}

impl JobInfo {
    /// A copy of the metadata.
    pub fn copy(&self) -> (c: JobInfo)
        ensures
            c.id == self.id,
            job_view(c) == job_view(*self),
    {
        JobInfo {
            id: self.id,
            category: self.category,
            name: self.name.clone(),
            metric_series_id: self.metric_series_id,
            schedule: self.schedule.clone(),
        }
    }
}

/// The registered jobs, by identifier.
#[derive(Debug)]
pub struct JobTable {
    jobs: Vec<JobInfo>,
}

/// The jobs of `s` as a map from identifier to metadata, where no
/// identifier occurs twice.
pub open spec fn jobs_map(s: Seq<(u128, JobView)>) -> Map<u128, JobView> {
    Map::new(
        |id: u128| exists|i: int| 0 <= i < s.len() && #[trigger] s[i].0 == id,
        |id: u128| s[choose|i: int| 0 <= i < s.len() && #[trigger] s[i].0 == id].1,
    )
}

/// Whether no identifier occurs twice in `s`.
pub open spec fn ids_distinct(s: Seq<(u128, JobView)>) -> bool {
    forall|a: int, b: int| 0 <= a < s.len() && 0 <= b < s.len() && #[trigger] s[a].0 == #[trigger] s[b].0 ==> a == b
}

proof fn lemma_jobs_map_at(s: Seq<(u128, JobView)>, i: int)
    requires
        ids_distinct(s),
        0 <= i < s.len(),
    ensures
        jobs_map(s).contains_key(s[i].0),
        jobs_map(s)[s[i].0] == s[i].1,
{
    assert(s[i].0 == s[i].0);
    let j = choose|j: int| 0 <= j < s.len() && #[trigger] s[j].0 == s[i].0;
    assert(j == i);
}

proof fn lemma_jobs_map_len(e: Seq<(u128, JobView)>)
    requires
        ids_distinct(e),
    ensures
        jobs_map(e).len() == e.len(),
{
    let ids = e.map_values(|x: (u128, JobView)| x.0);
    assert(ids.no_duplicates()) by {
        assert forall|a: int, b: int| 0 <= a < ids.len() && 0 <= b < ids.len() && a != b implies ids[a] != ids[b] by {
            assert(e[a].0 == ids[a] && e[b].0 == ids[b]);
        }
    }
    ids.unique_seq_to_set();
    assert(jobs_map(e).dom() =~= ids.to_set()) by {
        assert forall|k: u128| jobs_map(e).dom().contains(k) implies ids.to_set().contains(k) by {
            let i = choose|i: int| 0 <= i < e.len() && #[trigger] e[i].0 == k;
            assert(ids[i] == k);
        }
        assert forall|k: u128| ids.to_set().contains(k) implies jobs_map(e).dom().contains(k) by {
            let i = choose|i: int| 0 <= i < ids.len() && ids[i] == k;
            assert(e[i].0 == k);
        }
    }
}

impl View for JobTable {
    type V = Map<u128, JobView>;

    open spec fn view(&self) -> Map<u128, JobView> {
        jobs_map(self.entries())
    }
}

impl JobTable {
    /// The jobs in table order, each as identifier and metadata.
    pub closed spec fn entries(self) -> Seq<(u128, JobView)> {
        self.jobs@.map_values(|j: JobInfo| (j.id, job_view(j)))
    }

    #[verifier::type_invariant]
    spec fn ids_unique(self) -> bool {
        ids_distinct(self.entries())
    }

    /// An empty table.
    pub fn new() -> (t: JobTable)
        ensures
            t@ == Map::<u128, JobView>::empty(),
    {
        let t = JobTable { jobs: Vec::new() };
        proof {
            assert(t@ =~= Map::<u128, JobView>::empty());
        }
        t
    }

    /// The number of jobs.
    pub fn len(&self) -> (n: usize)
        ensures
            n == self@.len(),
    {
        proof {
            use_type_invariant(self);
            lemma_jobs_map_len(self.entries());
        }
        self.jobs.len()
    }

    /// The registered jobs, each once.
    pub fn list(&self) -> (r: Vec<JobInfo>)
        ensures
            r@.len() == self@.len(),
            forall|i: int| 0 <= i < r@.len() ==> self@.contains_key(#[trigger] r@[i].id) && self@[r@[i].id]
                == job_view(r@[i]),
            forall|id: u128| self@.contains_key(id) ==> exists|i: int| 0 <= i < r@.len() && #[trigger] r@[i].id == id,
    {
        proof {
            use_type_invariant(self);
            lemma_jobs_map_len(self.entries());
        }
        let ghost e = self.entries();
        let mut r: Vec<JobInfo> = Vec::new();
        let n = self.jobs.len();
        for i in 0..n
            invariant
                n == e.len(),
                e == self.entries(),
                ids_distinct(e),
                r@.len() == i,
                forall|j: int| 0 <= j < i ==> (#[trigger] r@[j]).id == e[j].0 && job_view(r@[j]) == e[j].1,
        {
            r.push(self.jobs[i].copy());
        }
        proof {
            assert forall|i: int| 0 <= i < r@.len() implies self@.contains_key(#[trigger] r@[i].id) && self@[r@[i].id]
                == job_view(r@[i]) by {
                lemma_jobs_map_at(e, i);
            }
            assert forall|id: u128| self@.contains_key(id) implies exists|i: int| 0 <= i < r@.len() && #[trigger] r@[i].id == id by {
                let i = choose|i: int| 0 <= i < e.len() && #[trigger] e[i].0 == id;
                assert(r@[i].id == id);
            }
        }
        r
    }

    /// The position of the job `id`, if it is registered.
    fn position(&self, id: u128) -> (r: Option<usize>)
        ensures
            match r {
                Some(i) => i < self.entries().len() && self.entries()[i as int].0 == id,
                None => !self@.contains_key(id),
            },
    {
        let n = self.jobs.len();
        for i in 0..n
            invariant
                n == self.entries().len(),
                forall|j: int| 0 <= j < i ==> self.entries()[j].0 != id,
        {
            if self.jobs[i].id == id {
                return Some(i);
            }
        }
        None
    }

    /// The name of the job `id`, if it is registered.
    pub fn name_of(&self, id: u128) -> (r: Option<String>)
        ensures
            r is Some <==> self@.contains_key(id),
            r matches Some(n) ==> n@ == self@[id].1,
    {
        proof {
            use_type_invariant(self);
        }
        match self.position(id) {
            Some(i) => {
                proof {
                    lemma_jobs_map_at(self.entries(), i as int);
                }
                Some(self.jobs[i].name.clone())
            },
            None => None,
        }
    }

    /// Register a job, replacing the one with the same identifier.
    pub fn insert(&mut self, job: JobInfo)
        ensures
            final(self)@ == old(self)@.insert(job.id, job_view(job)),
    {
        proof {
            use_type_invariant(&*self);
        }
        let ghost e0 = self.entries();
        let id = job.id;
        match self.position(id) {
            Some(i) => {
                let mut v: Vec<JobInfo> = Vec::new();
                std::mem::swap(&mut v, &mut self.jobs);
                v.set(i, job);
                proof {
                    let e1 = v@.map_values(|j: JobInfo| (j.id, job_view(j)));
                    assert(e1 =~= e0.update(i as int, (id, job_view(job))));
                    assert(ids_distinct(e1)) by {
                        assert forall|a: int, b: int| 0 <= a < e1.len() && 0 <= b < e1.len() && #[trigger] e1[a].0 == #[trigger] e1[b].0 implies a == b by {
                            assert(e1[a].0 == e0[a].0 && e1[b].0 == e0[b].0);
                        }
                    }
                    assert(jobs_map(e1) =~= jobs_map(e0).insert(id, job_view(job))) by {
                        assert forall|k: u128| jobs_map(e1).contains_key(k) == jobs_map(e0).insert(id, job_view(job)).contains_key(k) by {
                            if jobs_map(e1).contains_key(k) {
                                let j = choose|j: int| 0 <= j < e1.len() && #[trigger] e1[j].0 == k;
                                assert(e0[j].0 == k);
                            }
                            if jobs_map(e0).contains_key(k) {
                                let j = choose|j: int| 0 <= j < e0.len() && #[trigger] e0[j].0 == k;
                                assert(e1[j].0 == k);
                            }
                            if k == id {
                                assert(e1[i as int].0 == k);
                            }
                        }
                        assert forall|k: u128| #[trigger] jobs_map(e1).contains_key(k) implies jobs_map(e1)[k] == jobs_map(e0).insert(id, job_view(job))[k] by {
                            let j = choose|j: int| 0 <= j < e1.len() && #[trigger] e1[j].0 == k;
                            lemma_jobs_map_at(e1, j);
                            if k != id {
                                lemma_jobs_map_at(e0, j);
                            }
                        }
                    }
                }
                self.jobs = v;
            },
            None => {
                let mut v: Vec<JobInfo> = Vec::new();
                std::mem::swap(&mut v, &mut self.jobs);
                v.push(job);
                proof {
                    let e1 = v@.map_values(|j: JobInfo| (j.id, job_view(j)));
                    assert(e1 =~= e0.push((id, job_view(job))));
                    assert(ids_distinct(e1)) by {
                        assert forall|a: int, b: int| 0 <= a < e1.len() && 0 <= b < e1.len() && #[trigger] e1[a].0 == #[trigger] e1[b].0 implies a == b by {
                            if a < e0.len() && b == e0.len() {
                                assert(jobs_map(e0).contains_key(e0[a].0));
                            }
                            if b < e0.len() && a == e0.len() {
                                assert(jobs_map(e0).contains_key(e0[b].0));
                            }
                        }
                    }
                    assert(jobs_map(e1) =~= jobs_map(e0).insert(id, job_view(job))) by {
                        assert forall|k: u128| jobs_map(e1).contains_key(k) == jobs_map(e0).insert(id, job_view(job)).contains_key(k) by {
                            if jobs_map(e1).contains_key(k) && k != id {
                                let j = choose|j: int| 0 <= j < e1.len() && #[trigger] e1[j].0 == k;
                                assert(e0[j].0 == k);
                            }
                            if jobs_map(e0).contains_key(k) {
                                let j = choose|j: int| 0 <= j < e0.len() && #[trigger] e0[j].0 == k;
                                assert(e1[j].0 == k);
                            }
                            if k == id {
                                assert(e1[e0.len() as int].0 == k);
                            }
                        }
                        assert forall|k: u128| #[trigger] jobs_map(e1).contains_key(k) implies jobs_map(e1)[k] == jobs_map(e0).insert(id, job_view(job))[k] by {
                            let j = choose|j: int| 0 <= j < e1.len() && #[trigger] e1[j].0 == k;
                            lemma_jobs_map_at(e1, j);
                            if k != id {
                                lemma_jobs_map_at(e0, j);
                            }
                        }
                    }
                }
                self.jobs = v;
            },
        }
    }

    /// Unregister the job `id`, handing back its metadata if it was
    /// registered.
    pub fn remove(&mut self, id: u128) -> (r: Option<JobInfo>)
        ensures
            final(self)@ == old(self)@.remove(id),
            r is Some <==> old(self)@.contains_key(id),
            r matches Some(j) ==> j.id == id && job_view(j) == old(self)@[id],
    {
        proof {
            use_type_invariant(&*self);
        }
        let ghost e0 = self.entries();
        match self.position(id) {
            Some(i) => {
                let mut v: Vec<JobInfo> = Vec::new();
                std::mem::swap(&mut v, &mut self.jobs);
                let job = v.remove(i);
                proof {
                    lemma_jobs_map_at(e0, i as int);
                    let e1 = v@.map_values(|j: JobInfo| (j.id, job_view(j)));
                    assert(e1 =~= e0.remove(i as int));
                    assert(ids_distinct(e1)) by {
                        assert forall|a: int, b: int| 0 <= a < e1.len() && 0 <= b < e1.len() && #[trigger] e1[a].0 == #[trigger] e1[b].0 implies a == b by {
                            let a0 = if a < i { a } else { a + 1 };
                            let b0 = if b < i { b } else { b + 1 };
                            assert(e1[a].0 == e0[a0].0 && e1[b].0 == e0[b0].0);
                        }
                    }
                    assert(jobs_map(e1) =~= jobs_map(e0).remove(id)) by {
                        assert forall|k: u128| jobs_map(e1).contains_key(k) == jobs_map(e0).remove(id).contains_key(k) by {
                            if jobs_map(e1).contains_key(k) {
                                let j = choose|j: int| 0 <= j < e1.len() && #[trigger] e1[j].0 == k;
                                let j0 = if j < i { j } else { j + 1 };
                                assert(e0[j0].0 == k);
                                assert(j0 != i);
                            }
                            if jobs_map(e0).contains_key(k) && k != id {
                                let j = choose|j: int| 0 <= j < e0.len() && #[trigger] e0[j].0 == k;
                                assert(j != i);
                                let j1 = if j < i { j } else { j - 1 };
                                assert(e1[j1].0 == k);
                            }
                        }
                        assert forall|k: u128| #[trigger] jobs_map(e1).contains_key(k) implies jobs_map(e1)[k] == jobs_map(e0).remove(id)[k] by {
                            let j = choose|j: int| 0 <= j < e1.len() && #[trigger] e1[j].0 == k;
                            let j0 = if j < i { j } else { j + 1 };
                            lemma_jobs_map_at(e1, j);
                            assert(e0[j0] == e1[j]);
                            lemma_jobs_map_at(e0, j0);
                        }
                    }
                }
                self.jobs = v;
                Some(job)
            },
            None => {
                proof {
                    assert(jobs_map(e0).remove(id) =~= jobs_map(e0));
                }
                None
            },
        }
    }
}

/// The event source that reports on collectors of a category.
pub fn category_to_event_source(category: MetricCategory) -> (s: EventSource)
    ensures
        s == match category {
            MetricCategory::NetworkTcp => EventSource::CollectorNetworkTcp,
            MetricCategory::NetworkPing => EventSource::CollectorNetworkPing,
            MetricCategory::NetworkHttp => EventSource::CollectorNetworkHttp,
            _ => EventSource::Other,
        },
{
    match category {
        MetricCategory::NetworkTcp => EventSource::CollectorNetworkTcp,
        MetricCategory::NetworkPing => EventSource::CollectorNetworkPing,
        MetricCategory::NetworkHttp => EventSource::CollectorNetworkHttp,
        _ => EventSource::Other,
    }
}

/// An event of the registry itself (source `CollectorRegistry`, kind
/// `System`) with the given payload.
fn registry_event(severity: EventSeverity, message: String, payload: EventPayload) -> (e: Event)
    requires
        sorted_entries(payload.entries()),
    ensures
        e.id is None,
        e.source == EventSource::CollectorRegistry,
        e.kind == EventKind::System,
        e.severity == severity,
        e.message@ == message@,
        e.payload@ == payload@,
        sorted_entries(e.payload.entries()),
{
    let e = Event::new(EventSource::CollectorRegistry, EventKind::System, severity, message);
    let ghost p = payload@;
    let e = e.with_payloads(payload);
    proof {
        assert(Map::<Seq<char>, Seq<char>>::empty().union_prefer_right(p) =~= p);
    }
    e
}

/// Add one pair to a payload.
fn put(payload: &mut EventPayload, key: &str, value: &str)
    ensures
        final(payload)@ == old(payload)@.insert(key@, value@),
        sorted_entries(final(payload).entries()),
{
    payload.insert(String::from_str(key), String::from_str(value));
}

/// The event reporting that stage `stage` of setting up job `name` failed.
pub fn job_error_event(
    name: &str,
    category: &str,
    metric_series_id: u64,
    schedule: &str,
    error: &CollectorError,
    stage: &str,
) -> (e: Event)
    ensures
        e.source == EventSource::CollectorRegistry,
        e.kind == EventKind::System,
        e.severity == EventSeverity::Error,
        e.message@ == "Job '"@ + name@ + "' "@ + stage@ + " failed"@,
        e.payload@ == map![
            "collector"@ => name@,
            "category"@ => category@,
            "metric_series_id"@ => decimal(metric_series_id as nat),
            "schedule"@ => schedule@,
            "error"@ => collector_error_text(*error),
            "stage"@ => stage@,
        ],
        sorted_entries(e.payload.entries()),
{
    let mut message = String::from_str("Job '");
    message.append(name);
    message.append("' ");
    message.append(stage);
    message.append(" failed");
    let mut p = TagMap::new();
    put(&mut p, "collector", name);
    put(&mut p, "category", category);
    let id = u128_text(metric_series_id as u128);
    put(&mut p, "metric_series_id", id.as_str());
    put(&mut p, "schedule", schedule);
    let err = error.to_string();
    put(&mut p, "error", err.as_str());
    put(&mut p, "stage", stage);
    proof {
        assert(p@ =~= map![
            "collector"@ => name@,
            "category"@ => category@,
            "metric_series_id"@ => decimal(metric_series_id as nat),
            "schedule"@ => schedule@,
            "error"@ => collector_error_text(*error),
            "stage"@ => stage@,
        ]);
    }
    registry_event(EventSeverity::Error, message, p)
}

/// The event reporting that job `job_id` was created for collector `name`.
pub fn job_created_event(job_id: &str, name: &str, category: &str, schedule: &str, series_id: u64) -> (e: Event)
    ensures
        e.source == EventSource::CollectorRegistry,
        e.kind == EventKind::System,
        e.severity == EventSeverity::Info,
        e.message@ == "Job created: "@ + name@,
        e.payload@ == map![
            "job_id"@ => job_id@,
            "collector"@ => name@,
            "category"@ => category@,
            "schedule"@ => schedule@,
            "series_id"@ => decimal(series_id as nat),
        ],
        sorted_entries(e.payload.entries()),
{
    let message = join_text("Job created: ", name);
    let mut p = TagMap::new();
    put(&mut p, "job_id", job_id);
    put(&mut p, "collector", name);
    put(&mut p, "category", category);
    put(&mut p, "schedule", schedule);
    let id = u128_text(series_id as u128);
    put(&mut p, "series_id", id.as_str());
    proof {
        assert(p@ =~= map![
            "job_id"@ => job_id@,
            "collector"@ => name@,
            "category"@ => category@,
            "schedule"@ => schedule@,
            "series_id"@ => decimal(series_id as nat),
        ]);
    }
    registry_event(EventSeverity::Info, message, p)
}

/// The event reporting that the scheduler started.
pub fn scheduler_started_event() -> (e: Event)
    ensures
        e.source == EventSource::CollectorRegistry,
        e.kind == EventKind::System,
        e.severity == EventSeverity::Info,
        e.message@ == "Collector scheduler started"@,
        e.payload@ == Map::<Seq<char>, Seq<char>>::empty(),
{
    registry_event(EventSeverity::Info, String::from_str("Collector scheduler started"), TagMap::new())
}

/// How a shutdown of the scheduler ended.
#[derive(Debug)]
pub enum ShutdownOutcome {
    /// It finished in time.
    Completed,
    /// It failed with this error.
    Failed(CollectorError),
    /// The timeout elapsed first.
    TimedOut,
}

/// The event reporting the end of a shutdown with `job_count` jobs.
pub fn shutdown_event(job_count: usize, outcome: &ShutdownOutcome) -> (e: Event)
    ensures
        e.source == EventSource::CollectorRegistry,
        e.kind == EventKind::System,
        match outcome {
            ShutdownOutcome::Completed => e.severity == EventSeverity::Info && e.message@
                == "Scheduler shutdown complete"@ && e.payload@ == map![
                "job_count"@ => decimal(job_count as nat),
                "timed_out"@ => "false"@,
            ],
            ShutdownOutcome::Failed(err) => e.severity == EventSeverity::Error && e.message@
                == "Scheduler shutdown failed"@ && e.payload@ == map![
                "job_count"@ => decimal(job_count as nat),
                "error"@ => collector_error_text(*err),
            ],
            ShutdownOutcome::TimedOut => e.severity == EventSeverity::Error && e.message@
                == "Scheduler shutdown timed out"@ && e.payload@ == map![
                "job_count"@ => decimal(job_count as nat),
                "timed_out"@ => "true"@,
            ],
        },
        sorted_entries(e.payload.entries()),
{
    let mut p = TagMap::new();
    let count = u128_text(job_count as u128);
    put(&mut p, "job_count", count.as_str());
    match outcome {
        ShutdownOutcome::Completed => {
            put(&mut p, "timed_out", "false");
            proof {
                assert(p@ =~= map![
                    "job_count"@ => decimal(job_count as nat),
                    "timed_out"@ => "false"@,
                ]);
            }
            registry_event(EventSeverity::Info, String::from_str("Scheduler shutdown complete"), p)
        },
        ShutdownOutcome::Failed(err) => {
            let text = err.to_string();
            put(&mut p, "error", text.as_str());
            proof {
                assert(p@ =~= map![
                    "job_count"@ => decimal(job_count as nat),
                    "error"@ => collector_error_text(*err),
                ]);
            }
            registry_event(EventSeverity::Error, String::from_str("Scheduler shutdown failed"), p)
        },
        ShutdownOutcome::TimedOut => {
            put(&mut p, "timed_out", "true");
            proof {
                assert(p@ =~= map![
                    "job_count"@ => decimal(job_count as nat),
                    "timed_out"@ => "true"@,
                ]);
            }
            registry_event(EventSeverity::Error, String::from_str("Scheduler shutdown timed out"), p)
        },
    }
}

/// What a shutdown returns: nothing when it completed, its error when it
/// failed, and a scheduler error when it timed out.
pub fn shutdown_result(outcome: ShutdownOutcome) -> (r: Result<(), CollectorError>)
    ensures
        match outcome {
            ShutdownOutcome::Completed => r is Ok,
            ShutdownOutcome::Failed(err) => r == Err::<(), CollectorError>(err),
            ShutdownOutcome::TimedOut => r matches Err(CollectorError::Scheduler(m)) && m@
                == "scheduler shutdown timed out"@,
        },
{
    match outcome {
        ShutdownOutcome::Completed => Ok(()),
        ShutdownOutcome::Failed(err) => Err(err),
        ShutdownOutcome::TimedOut => Err(CollectorError::Scheduler(String::from_str("scheduler shutdown timed out"))),
    }
}

/// The event reporting that removing job `job_id` failed.
pub fn job_remove_failed_event(job_id: &str, name: Option<&str>, error: &CollectorError) -> (e: Event)
    ensures
        e.source == EventSource::CollectorRegistry,
        e.kind == EventKind::System,
        e.severity == EventSeverity::Error,
        e.message@ == "Job remove failed"@,
        e.payload@ == match name {
            Some(n) => map![
                "job_id"@ => job_id@,
                "collector"@ => n@,
                "error"@ => collector_error_text(*error),
            ],
            None => map![ "job_id"@ => job_id@, "error"@ => collector_error_text(*error) ],
        },
        sorted_entries(e.payload.entries()),
{
    let mut p = TagMap::new();
    put(&mut p, "job_id", job_id);
    match name {
        Some(n) => put(&mut p, "collector", n),
        None => {},
    }
    let text = error.to_string();
    put(&mut p, "error", text.as_str());
    proof {
        assert(p@ =~= match name {
            Some(n) => map![
                "job_id"@ => job_id@,
                "collector"@ => n@,
                "error"@ => collector_error_text(*error),
            ],
            None => map![ "job_id"@ => job_id@, "error"@ => collector_error_text(*error) ],
        });
    }
    registry_event(EventSeverity::Error, String::from_str("Job remove failed"), p)
}

/// The event reporting that job `job_id` was removed.
pub fn job_removed_event(job_id: &str, name: Option<&str>) -> (e: Event)
    ensures
        e.source == EventSource::CollectorRegistry,
        e.kind == EventKind::System,
        e.severity == EventSeverity::Info,
        e.message@ == "Job removed"@,
        e.payload@ == match name {
            Some(n) => map![ "job_id"@ => job_id@, "collector"@ => n@ ],
            None => map![ "job_id"@ => job_id@ ],
        },
        sorted_entries(e.payload.entries()),
{
    let mut p = TagMap::new();
    put(&mut p, "job_id", job_id);
    match name {
        Some(n) => put(&mut p, "collector", n),
        None => {},
    }
    proof {
        assert(p@ =~= match name {
            Some(n) => map![ "job_id"@ => job_id@, "collector"@ => n@ ],
            None => map![ "job_id"@ => job_id@ ],
        });
    }
    registry_event(EventSeverity::Info, String::from_str("Job removed"), p)
}

/// The event recorded when a collection of collector `name` fails after
/// `duration_ms` milliseconds. Successful collections record no event.
pub fn collection_failed_event(
    category: MetricCategory,
    name: &str,
    duration_ms: u128,
    error: &CollectorError,
) -> (e: Event)
    ensures
        e.source == match category {
            MetricCategory::NetworkTcp => EventSource::CollectorNetworkTcp,
            MetricCategory::NetworkPing => EventSource::CollectorNetworkPing,
            MetricCategory::NetworkHttp => EventSource::CollectorNetworkHttp,
            _ => EventSource::Other,
        },
        e.kind == EventKind::Error,
        e.severity == EventSeverity::Error,
        e.message@ == "Collection failed: "@ + collector_error_text(*error),
        e.payload@ == map![
            "collector"@ => name@,
            "category"@ => category.name(),
            "duration_ms"@ => decimal(duration_ms as nat),
            "status"@ => "failed"@,
            "error"@ => collector_error_text(*error),
        ],
        sorted_entries(e.payload.entries()),
{
    let text = error.to_string();
    let message = join_text("Collection failed: ", text.as_str());
    let source = category_to_event_source(category);
    let e = Event::new(source, EventKind::Error, EventSeverity::Error, message);
    let ms = u128_text(duration_ms);
    let e = e.with_payload(String::from_str("collector"), String::from_str(name));
    let e = e.with_payload(String::from_str("category"), String::from_str(category.as_ref()));
    let e = e.with_payload(String::from_str("duration_ms"), ms);
    let e = e.with_payload(String::from_str("status"), String::from_str("failed"));
    let e = e.with_payload(String::from_str("error"), text);
    proof {
        assert(e.payload@ =~= map![
            "collector"@ => name@,
            "category"@ => category.name(),
            "duration_ms"@ => decimal(duration_ms as nat),
            "status"@ => "failed"@,
            "error"@ => collector_error_text(*error),
        ]);
    }
    e
}

} // verus!
