//! Collector records kept in the database, and the plan that brings the
//! stored configuration-file collectors in line with the file.
use vstd::prelude::*;
use crate::clock::now_millis;
use crate::storage::types::UnknownVariant;
use crate::text::{eq_ignore_ascii_case, str_eq, str_eq_ignore_ascii_case};

verus! {

/// Collector type classification.
#[derive(Clone, Copy, Debug, PartialEq, Eq, Hash, Structural)]
pub enum CollectorType {
    /// TCP port probe collector.
    Tcp,
    /// ICMP ping probe collector.
    Ping,
    /// HTTP endpoint probe collector.
    Http,
}

impl CollectorType {
    /// The textual name of the variant.
    pub open spec fn name(self) -> Seq<char> {
        match self {
            CollectorType::Tcp => "tcp"@,
            CollectorType::Ping => "ping"@,
            CollectorType::Http => "http"@,
        }
    }

    /// The textual name of the variant.
    pub fn as_ref(&self) -> (s: &'static str)
        ensures
            s@ == self.name(),
    {
        match self {
            CollectorType::Tcp => "tcp",
            CollectorType::Ping => "ping",
            CollectorType::Http => "http",
        }
    }

    /// The type named `s`, compared without regard to ASCII case.
    pub fn parse(s: &str) -> (r: Option<CollectorType>)
        ensures
            r matches Some(c) ==> eq_ignore_ascii_case(s@, c.name()),
            r is None ==> forall|c: CollectorType| !eq_ignore_ascii_case(s@, c.name()),
    {
        if str_eq_ignore_ascii_case(s, "tcp") {
            Some(CollectorType::Tcp)
        } else if str_eq_ignore_ascii_case(s, "ping") {
            Some(CollectorType::Ping)
        } else if str_eq_ignore_ascii_case(s, "http") {
            Some(CollectorType::Http)
        } else {
            proof {
                assert forall|c: CollectorType| !eq_ignore_ascii_case(s@, c.name()) by {
                    match c {
                        CollectorType::Tcp => {},
                        CollectorType::Ping => {},
                        CollectorType::Http => {},
                    }
                }
            }
            None
        }
    }
}

impl std::str::FromStr for CollectorType {
    type Err = UnknownVariant;

    fn from_str(s: &str) -> (r: Result<CollectorType, UnknownVariant>)
        ensures
            r matches Ok(c) ==> eq_ignore_ascii_case(s@, c.name()),
            r is Err ==> forall|c: CollectorType| !(eq_ignore_ascii_case(s@, c.name())),
    {
        match CollectorType::parse(s) {
            Some(c) => Ok(c),
            None => Err(UnknownVariant),
        }
    }
}

/// Where a collector's configuration comes from.
#[derive(Clone, Copy, Debug, PartialEq, Eq, Hash, Structural)]
pub enum CollectorSource {
    /// From the configuration file.
    Config,
    /// Created through the API.
    Api,
}

impl CollectorSource {
    /// The textual name of the variant.
    pub open spec fn name(self) -> Seq<char> {
        match self {
            CollectorSource::Config => "config"@,
            CollectorSource::Api => "api"@,
        }
    }

    /// The textual name of the variant.
    pub fn as_ref(&self) -> (s: &'static str)
        ensures
            s@ == self.name(),
    {
        match self {
            CollectorSource::Config => "config",
            CollectorSource::Api => "api",
        }
    }

    /// The source named `s`, compared without regard to ASCII case.
    pub fn parse(s: &str) -> (r: Option<CollectorSource>)
        ensures
            r matches Some(c) ==> eq_ignore_ascii_case(s@, c.name()),
            r is None ==> forall|c: CollectorSource| !eq_ignore_ascii_case(s@, c.name()),
    {
        if str_eq_ignore_ascii_case(s, "config") {
            Some(CollectorSource::Config)
        } else if str_eq_ignore_ascii_case(s, "api") {
            Some(CollectorSource::Api)
        } else {
            proof {
                assert forall|c: CollectorSource| !eq_ignore_ascii_case(s@, c.name()) by {
                    match c {
                        CollectorSource::Config => {},
                        CollectorSource::Api => {},
                    }
                }
            }
            None
        }
    }
}

impl std::str::FromStr for CollectorSource {
    type Err = UnknownVariant;

    fn from_str(s: &str) -> (r: Result<CollectorSource, UnknownVariant>)
        ensures
            r matches Ok(c) ==> eq_ignore_ascii_case(s@, c.name()),
            r is Err ==> forall|c: CollectorSource| !(eq_ignore_ascii_case(s@, c.name())),
    {
        match CollectorSource::parse(s) {
            Some(c) => Ok(c),
            None => Err(UnknownVariant),
        }
    }
}


/// A collector record as stored in the database.
#[derive(Debug)]
pub struct CollectorRecord {
    /// Database identifier (`None` for new records).
    pub id: Option<i64>,
    /// Collector type.
    pub collector_type: CollectorType,
    /// Unique name within its type.
    pub name: String,
    /// Where the record comes from.
    pub source: CollectorSource,
    /// Whether the collector runs.
    pub enabled: bool,
    /// Collector group.
    pub group_name: String,
    /// The collector's configuration as JSON text.
    pub config: String,
    /// Creation time, in milliseconds since the Unix epoch.
    pub created_at: i64,
    /// Last update time, in milliseconds since the Unix epoch.
    pub updated_at: i64,
}

impl CollectorRecord {
    /// A new record from the configuration file, stamped with the current
    /// time.
    pub fn from_config(
        collector_type: CollectorType,
        name: &str,
        enabled: bool,
        group_name: &str,
        config: String,
    ) -> (r: CollectorRecord)
        ensures
            r.id is None,
            r.collector_type == collector_type,
            r.name@ == name@,
            r.source == CollectorSource::Config,
            r.enabled == enabled,
            r.group_name@ == group_name@,
            r.config == config,
            r.created_at == r.updated_at,
    {
        let now = now_millis();
        CollectorRecord {
            id: None,
            collector_type,
            name: String::from_str(name),
            source: CollectorSource::Config,
            enabled,
            group_name: String::from_str(group_name),
            config,
            created_at: now,
            updated_at: now,
        }
    }

    /// A new record created through the API, stamped with the current time.
    pub fn from_api(
        collector_type: CollectorType,
        name: &str,
        enabled: bool,
        group_name: &str,
        config: String,
    ) -> (r: CollectorRecord)
        ensures
            r.id is None,
            r.collector_type == collector_type,
            r.name@ == name@,
            r.source == CollectorSource::Api,
            r.enabled == enabled,
            r.group_name@ == group_name@,
            r.config == config,
            r.created_at == r.updated_at,
    {
        let now = now_millis();
        CollectorRecord {
            id: None,
            collector_type,
            name: String::from_str(name),
            source: CollectorSource::Api,
            enabled,
            group_name: String::from_str(group_name),
            config,
            created_at: now,
            updated_at: now,
        }
    }
}

/// Counts of a synchronisation of configuration-file collectors.
#[derive(Debug, PartialEq, Eq, Structural)]
pub struct SyncResult {
    /// Collectors added.
    pub added: usize,
    /// Collectors updated.
    pub updated: usize,
    /// Stale collectors deleted.
    pub deleted: usize,
}

impl Default for SyncResult {
    /// Nothing added, updated or deleted.
    fn default() -> (r: SyncResult)
        ensures
            r == (SyncResult { added: 0, updated: 0, deleted: 0 }),
    {
        SyncResult { added: 0, updated: 0, deleted: 0 }
    }
}

/// The identity of a collector: its type and name.
pub type CollectorKey = (CollectorType, String);

/// The view of a key.
pub open spec fn key_view(k: (CollectorType, String)) -> (CollectorType, Seq<char>) {
    (k.0, k.1@)
}

/// The views of a list of keys.
pub open spec fn keys_view(keys: Seq<(CollectorType, String)>) -> Seq<(CollectorType, Seq<char>)> {
    keys.map_values(|k: (CollectorType, String)| key_view(k))
}

/// The key of a record.
pub open spec fn record_key(r: CollectorRecord) -> (CollectorType, Seq<char>) {
    (r.collector_type, r.name@)
}

/// The keys of a list of records.
pub open spec fn record_keys(rs: Seq<CollectorRecord>) -> Seq<(CollectorType, Seq<char>)> {
    rs.map_values(|r: CollectorRecord| record_key(r))
}

/// The number of records whose key is not among `existing`.
pub open spec fn count_new(
    configs: Seq<(CollectorType, Seq<char>)>,
    existing: Seq<(CollectorType, Seq<char>)>,
) -> nat
    decreases configs.len(),
{
    if configs.len() == 0 {
        0
    } else {
        count_new(configs.drop_last(), existing) + if existing.contains(configs.last()) {
            0nat
        } else {
            1nat
        }
    }
}

/// What a synchronisation does: upsert every configured collector, and
/// delete the stored ones that are no longer configured.
#[derive(Debug)]
pub struct SyncPlan {
    /// Stale collectors to delete, each once.
    pub deletes: Vec<(CollectorType, String)>,
    /// The counts to report once every write succeeded.
    pub result: SyncResult,
}

/// Whether `k` is among `keys`.
fn has_key(keys: &Vec<(CollectorType, String)>, t: CollectorType, name: &str) -> (b: bool)
    ensures
        b == keys_view(keys@).contains((t, name@)),
{
    let ghost kv = keys_view(keys@);
    let n = keys.len();
    for i in 0..n
        invariant
            n == keys@.len(),
            kv == keys_view(keys@),
            forall|j: int| 0 <= j < i ==> kv[j] != (t, name@),
    {
        if keys[i].0 == t && str_eq(keys[i].1.as_str(), name) {
            proof {
                assert(kv[i as int] == (t, name@));
            }
            return true;
        }
    }
    false
}

/// Whether the record at one of `configs` has key `(t, name)`.
fn has_record(configs: &Vec<CollectorRecord>, t: CollectorType, name: &str) -> (b: bool)
    ensures
        b == record_keys(configs@).contains((t, name@)),
{
    let ghost kv = record_keys(configs@);
    let n = configs.len();
    for i in 0..n
        invariant
            n == configs@.len(),
            kv == record_keys(configs@),
            forall|j: int| 0 <= j < i ==> kv[j] != (t, name@),
    {
        if configs[i].collector_type == t && str_eq(configs[i].name.as_str(), name) {
            proof {
                assert(kv[i as int] == (t, name@));
            }
            return true;
        }
    }
    false
}

/// The keys of the configuration-file collectors stored after a sync: the
/// stored keys and the configured ones, without the deleted ones.
pub open spec fn keys_after_sync(
    existing: Seq<(CollectorType, Seq<char>)>,
    configs: Seq<(CollectorType, Seq<char>)>,
    deletes: Seq<(CollectorType, Seq<char>)>,
) -> Set<(CollectorType, Seq<char>)> {
    existing.to_set().union(configs.to_set()).difference(deletes.to_set())
}

/// Plan the synchronisation of the configured collectors `configs` with
/// the keys of the configuration-file collectors stored so far.
///
/// Each configured collector is upserted: it counts as updated when its
/// key was stored, else as added. Each stored key that is no longer
/// configured is deleted once. Carried out, the plan leaves exactly the
/// configured keys stored.
pub fn plan_sync(existing: &Vec<(CollectorType, String)>, configs: &Vec<CollectorRecord>) -> (p: SyncPlan)
    requires
        configs@.len() <= usize::MAX,
    ensures
        p.result.added == count_new(record_keys(configs@), keys_view(existing@)),
        p.result.added + p.result.updated == configs@.len(),
        p.result.deleted == p.deletes@.len(),
        forall|a: int, b: int| 0 <= a < b < p.deletes@.len() ==> #[trigger] keys_view(p.deletes@)[a]
            != #[trigger] keys_view(p.deletes@)[b],
        forall|k: (CollectorType, Seq<char>)| #[trigger] keys_view(p.deletes@).contains(k) <==> (
        keys_view(existing@).contains(k) && !record_keys(configs@).contains(k)),
        keys_after_sync(keys_view(existing@), record_keys(configs@), keys_view(p.deletes@))
            == record_keys(configs@).to_set(),
{
    let ghost ev = keys_view(existing@);
    let ghost cv = record_keys(configs@);
    let n = configs.len();
    let mut added: usize = 0;
    proof {
        assert(cv.take(0) =~= Seq::<(CollectorType, Seq<char>)>::empty());
    }
    for i in 0..n
        invariant
            n == configs@.len(),
            ev == keys_view(existing@),
            cv == record_keys(configs@),
            added == count_new(cv.take(i as int), ev),
            added <= i,
    {
        proof {
            assert(cv.take(i + 1).drop_last() =~= cv.take(i as int));
            assert(cv[i as int] == record_key(configs@[i as int]));
        }
        if !has_key(existing, configs[i].collector_type, configs[i].name.as_str()) {
            added = added + 1;
        }
    }
    proof {
        assert(cv.take(n as int) =~= cv);
    }
    let mut deletes: Vec<(CollectorType, String)> = Vec::new();
    let m = existing.len();
    for i in 0..m
        invariant
            m == existing@.len(),
            ev == keys_view(existing@),
            cv == record_keys(configs@),
            deletes@.len() <= i,
            forall|a: int, b: int| 0 <= a < b < deletes@.len() ==> #[trigger] keys_view(deletes@)[a]
                != #[trigger] keys_view(deletes@)[b],
            forall|k: (CollectorType, Seq<char>)| #[trigger] keys_view(deletes@).contains(k) <==> (
            ev.take(i as int).contains(k) && !cv.contains(k)),
    {
        let t = existing[i].0;
        let name = existing[i].1.as_str();
        let ghost before = deletes@;
        let ghost e0 = ev.take(i as int);
        let ghost e1 = ev.take(i + 1);
        proof {
            assert(ev[i as int] == (t, name@));
            assert(e1 =~= e0.push((t, name@)));
        }
        if !has_record(configs, t, name) && !has_key(&deletes, t, name) {
            deletes.push((t, String::from_str(name)));
            proof {
                assert(keys_view(deletes@) =~= keys_view(before).push((t, name@)));
                let dv = keys_view(deletes@);
                let bv = keys_view(before);
                assert forall|k: (CollectorType, Seq<char>)| #[trigger] dv.contains(k)
                    <==> (e1.contains(k) && !cv.contains(k)) by {
                    if dv.contains(k) {
                        if k == (t, name@) {
                            assert(e1[i as int] == k);
                        } else {
                            let j = choose|j: int| 0 <= j < dv.len() && dv[j] == k;
                            assert(bv[j] == k);
                            assert(bv.contains(k));
                            let q = choose|q: int| 0 <= q < e0.len() && e0[q] == k;
                            assert(e1[q] == k);
                        }
                    }
                    if e1.contains(k) && !cv.contains(k) {
                        if k == (t, name@) {
                            assert(dv[bv.len() as int] == k);
                        } else {
                            let j = choose|j: int| 0 <= j < e1.len() && e1[j] == k;
                            assert(e0[j] == k);
                            assert(e0.contains(k));
                            assert(bv.contains(k));
                            let q = choose|q: int| 0 <= q < bv.len() && bv[q] == k;
                            assert(dv[q] == k);
                        }
                    }
                }
            }
        } else {
            proof {
                assert forall|k: (CollectorType, Seq<char>)| #[trigger] keys_view(deletes@).contains(k)
                    <==> (e1.contains(k) && !cv.contains(k)) by {
                    if e1.contains(k) && !cv.contains(k) && k != (t, name@) {
                        let j = choose|j: int| 0 <= j < e1.len() && e1[j] == k;
                        assert(e0[j] == k);
                    }
                    if keys_view(deletes@).contains(k) {
                        let j = choose|j: int| 0 <= j < e0.len() && e0[j] == k;
                        assert(e1[j] == k);
                    }
                }
            }
        }
    }
    proof {
        assert(ev.take(m as int) =~= ev);
        assert(keys_after_sync(ev, cv, keys_view(deletes@)) =~= cv.to_set());
    }
    let deleted = deletes.len();
    SyncPlan { deletes, result: SyncResult { added, updated: n - added, deleted } }
}

} // verus!
