//! Query planning for the metric and event readers, the aggregation of
//! metric statistics, and the decoding of stored rows.
use vstd::prelude::*;
use crate::clock::now_micros;
use crate::storage::types::{
    Event, EventKind, EventSeverity, EventSource, MetricCategory, UnknownVariant,
};
use crate::tags::{TagMap, sorted_entries};
use crate::collector::http::pairs_view;
use crate::text::{seq_lt, str_eq, compare_strs, Order, lemma_seq_lt_irreflexive,
    lemma_seq_lt_transitive, eq_ignore_ascii_case};

verus! {

broadcast use vstd::string::group_string_axioms;

/// Default number of rows a query returns.
pub const DEFAULT_LIMIT: u32 = 100;

/// Largest number of rows a query returns.
pub const MAX_LIMIT: u32 = 10_000;

/// Default length of a query's time range, in days.
pub const DEFAULT_RANGE_DAYS: i64 = 30;

/// The default range in microseconds (30 days).
pub const DEFAULT_RANGE_MICROS: i64 = 2_592_000_000_000;

/// Sort order of query results by time.
#[derive(Clone, Copy, Debug, PartialEq, Eq, Structural)]
pub enum SortOrder {
    /// Oldest first.
    Asc,
    /// Newest first.
    Desc,
}

impl Default for SortOrder {
    /// Newest first.
    fn default() -> (o: SortOrder)
        ensures
            o == SortOrder::Desc,
    {
        SortOrder::Desc
    }
}

impl SortOrder {
    /// The textual name: `asc` or `desc`.
    pub open spec fn name(self) -> Seq<char> {
        match self {
            SortOrder::Asc => "asc"@,
            SortOrder::Desc => "desc"@,
        }
    }

    /// The SQL keyword: `ASC` or `DESC`.
    pub open spec fn sql(self) -> Seq<char> {
        match self {
            SortOrder::Asc => "ASC"@,
            SortOrder::Desc => "DESC"@,
        }
    }

    /// The textual name: `asc` or `desc`.
    pub fn as_ref(&self) -> (s: &'static str)
        ensures
            s@ == self.name(),
    {
        match self {
            SortOrder::Asc => "asc",
            SortOrder::Desc => "desc",
        }
    }

    /// The order named exactly `s` (`asc` or `desc`).
    pub fn parse(s: &str) -> (r: Option<SortOrder>)
        ensures
            r matches Some(o) ==> s@ == o.name(),
            r is None ==> forall|o: SortOrder| s@ != o.name(),
    {
        if str_eq(s, "asc") {
            Some(SortOrder::Asc)
        } else if str_eq(s, "desc") {
            Some(SortOrder::Desc)
        } else {
            proof {
                assert forall|o: SortOrder| s@ != o.name() by {
                    match o {
                        SortOrder::Asc => {},
                        SortOrder::Desc => {},
                    }
                }
            }
            None
        }
    }

    /// The SQL keyword: `ASC` or `DESC`.
    pub fn as_sql(&self) -> (s: &'static str)
        ensures
            s@ == self.sql(),
    {
        match self {
            SortOrder::Asc => "ASC",
            SortOrder::Desc => "DESC",
        }
    }
}

impl std::str::FromStr for SortOrder {
    type Err = UnknownVariant;

    fn from_str(s: &str) -> (r: Result<SortOrder, UnknownVariant>)
        ensures
            r matches Ok(c) ==> s@ == c.name(),
            r is Err ==> forall|c: SortOrder| !(s@ == c.name()),
    {
        match SortOrder::parse(s) {
            Some(o) => Ok(o),
            None => Err(UnknownVariant),
        }
    }
}

/// The number of rows a query asks for: its limit (100 if none), at most
/// 10 000.
pub open spec fn effective_limit(limit: Option<u32>) -> u32 {
    let l = match limit {
        Some(l) => l,
        None => DEFAULT_LIMIT,
    };
    if l <= MAX_LIMIT {
        l
    } else {
        MAX_LIMIT
    }
}

/// The row limit of a query.
pub fn query_limit(limit: Option<u32>) -> (l: u32)
    ensures
        l == effective_limit(limit),
        l <= MAX_LIMIT,
{
    let l = match limit {
        Some(l) => l,
        None => DEFAULT_LIMIT,
    };
    if l <= MAX_LIMIT {
        l
    } else {
        MAX_LIMIT
    }
}

/// The start of a query's range: the given start, or 30 days before `now`.
pub open spec fn range_start(start: Option<i64>, now: i64) -> int {
    match start {
        Some(s) => s as int,
        None => now - DEFAULT_RANGE_MICROS,
    }
}

/// The end of a query's range: the given end, or `now`.
pub open spec fn range_end(end: Option<i64>, now: i64) -> int {
    match end {
        Some(e) => e as int,
        None => now as int,
    }
}

/// A planned query: its SQL text and the values to bind, in order: the
/// range start and end, the filter values, then the limit.
#[derive(Debug)]
pub struct QueryPlan {
    /// The SQL text with `?` placeholders.
    pub sql: String,
    /// Start of the range, in microseconds.
    pub start: i64,
    /// End of the range, in microseconds.
    pub end: i64,
    /// Values of the filters, in the order of their placeholders.
    pub filters: Vec<String>,
    /// Number of rows to return.
    pub limit: i64,
}

/// Query for metric values, joined with their series.
#[derive(Debug)]
pub struct MetricQuery {
    /// Earliest time, in microseconds (default: 30 days ago).
    pub start: Option<i64>,
    /// Latest time, in microseconds (default: now).
    pub end: Option<i64>,
    /// Only this category.
    pub category: Option<MetricCategory>,
    /// Only this metric name.
    pub name: Option<String>,
    /// Only this target.
    pub target: Option<String>,
    /// Number of rows (default 100, at most 10 000).
    pub limit: Option<u32>,
    /// Sort order by time (default newest first).
    pub order: Option<SortOrder>,
}

impl Default for MetricQuery {
    /// No filters, default range, limit and order.
    fn default() -> (q: MetricQuery)
        ensures
            q.start is None && q.end is None && q.category is None && q.name is None
                && q.target is None && q.limit is None && q.order is None,
    {
        MetricQuery {
            start: None,
            end: None,
            category: None,
            name: None,
            target: None,
            limit: None,
            order: None,
        }
    }
}

/// Query for events.
#[derive(Debug)]
pub struct EventQuery {
    /// Earliest time, in microseconds (default: 30 days ago).
    pub start: Option<i64>,
    /// Latest time, in microseconds (default: now).
    pub end: Option<i64>,
    /// Only this source.
    pub source: Option<EventSource>,
    /// Only this kind.
    pub kind: Option<EventKind>,
    /// Only this severity.
    pub severity: Option<EventSeverity>,
    /// Number of rows (default 100, at most 10 000).
    pub limit: Option<u32>,
    /// Sort order by time (default newest first).
    pub order: Option<SortOrder>,
}

impl Default for EventQuery {
    /// No filters, default range, limit and order.
    fn default() -> (q: EventQuery)
        ensures
            q.start is None && q.end is None && q.source is None && q.kind is None
                && q.severity is None && q.limit is None && q.order is None,
    {
        EventQuery {
            start: None,
            end: None,
            source: None,
            kind: None,
            severity: None,
            limit: None,
            order: None,
        }
    }
}

/// The order of a query: its own, else newest first.
pub open spec fn order_of(o: Option<SortOrder>) -> SortOrder {
    match o {
        Some(o) => o,
        None => SortOrder::Desc,
    }
}

/// `text` when `present`, else nothing.
pub open spec fn clause(present: bool, text: Seq<char>) -> Seq<char> {
    if present {
        text
    } else {
        Seq::empty()
    }
}

/// The SQL of a metric query.
pub open spec fn metric_sql(q: MetricQuery) -> Seq<char> {
    "SELECT s.series_id, s.category, s.name, s.target, s.static_tags, s.description, v.ts, v.value, v.unit, v.success, v.duration_ms, v.dynamic_tags FROM metric_values v JOIN metric_series s ON v.series_id = s.series_id WHERE v.ts >= ? AND v.ts <= ?"@
        + clause(q.category is Some, " AND s.category = ?"@) + clause(
        q.name is Some,
        " AND s.name = ?"@,
    ) + clause(q.target is Some, " AND s.target = ?"@) + " ORDER BY v.ts "@ + order_of(
        q.order,
    ).sql() + " LIMIT ?"@
}

/// The filter values of a metric query, in placeholder order.
pub open spec fn metric_filters(q: MetricQuery) -> Seq<Seq<char>> {
    (match q.category {
        Some(c) => seq![c.name()],
        None => Seq::empty(),
    }) + (match q.name {
        Some(n) => seq![n@],
        None => Seq::empty(),
    }) + (match q.target {
        Some(t) => seq![t@],
        None => Seq::empty(),
    })
}

/// The SQL of an event query.
pub open spec fn event_sql(q: EventQuery) -> Seq<char> {
    "SELECT id, ts, source, kind, severity, message, payload FROM events WHERE ts >= ? AND ts <= ?"@
        + clause(q.source is Some, " AND source = ?"@) + clause(
        q.kind is Some,
        " AND kind = ?"@,
    ) + clause(q.severity is Some, " AND severity = ?"@) + " ORDER BY ts "@ + order_of(
        q.order,
    ).sql() + " LIMIT ?"@
}

/// The filter values of an event query, in placeholder order.
pub open spec fn event_filters(q: EventQuery) -> Seq<Seq<char>> {
    (match q.source {
        Some(s) => seq![s.name()],
        None => Seq::empty(),
    }) + (match q.kind {
        Some(k) => seq![k.name()],
        None => Seq::empty(),
    }) + (match q.severity {
        Some(s) => seq![s.name()],
        None => Seq::empty(),
    })
}

/// The SQL of a metric query joins each value to its series, keeps the
/// values between the two time bounds, adds one filter per given field,
/// in the order category, name, target, each comparing that field's own
/// column, sorts by time (newest first unless asked otherwise) and ends
/// with the limit. The filter values come in the same order as the
/// filters.
pub proof fn lemma_metric_sql_filters(q: MetricQuery)
    ensures
        metric_sql(q) == "SELECT s.series_id, s.category, s.name, s.target, s.static_tags, s.description, v.ts, v.value, v.unit, v.success, v.duration_ms, v.dynamic_tags FROM metric_values v JOIN metric_series s ON v.series_id = s.series_id WHERE v.ts >= ? AND v.ts <= ?"@
            + (if q.category is Some {
            " AND s.category = ?"@
        } else {
            ""@
        }) + (if q.name is Some {
            " AND s.name = ?"@
        } else {
            ""@
        }) + (if q.target is Some {
            " AND s.target = ?"@
        } else {
            ""@
        }) + " ORDER BY v.ts "@ + (if q.order == Some(SortOrder::Asc) {
            "ASC"@
        } else {
            "DESC"@
        }) + " LIMIT ?"@,
        metric_filters(q).len() == (if q.category is Some { 1int } else { 0int }) + (if q.name is Some {
            1int
        } else {
            0int
        }) + (if q.target is Some { 1int } else { 0int }),
        q.category matches Some(c) ==> metric_filters(q)[0] == c.name(),
        q.name matches Some(n) ==> metric_filters(q)[if q.category is Some { 1int } else { 0int }] == n@,
        q.target matches Some(t) ==> metric_filters(q)[metric_filters(q).len() - 1] == t@,
{
    reveal_strlit("");
    assert(""@ =~= Seq::<char>::empty());
}

/// The SQL of an event query keeps the events between the two time
/// bounds, adds one filter per given field, in the order source, kind,
/// severity, each comparing that field's own column, sorts by time
/// (newest first unless asked otherwise) and ends with the limit. The
/// filter values come in the same order as the filters.
pub proof fn lemma_event_sql_filters(q: EventQuery)
    ensures
        event_sql(q) == "SELECT id, ts, source, kind, severity, message, payload FROM events WHERE ts >= ? AND ts <= ?"@
            + (if q.source is Some {
            " AND source = ?"@
        } else {
            ""@
        }) + (if q.kind is Some {
            " AND kind = ?"@
        } else {
            ""@
        }) + (if q.severity is Some {
            " AND severity = ?"@
        } else {
            ""@
        }) + " ORDER BY ts "@ + (if q.order == Some(SortOrder::Asc) {
            "ASC"@
        } else {
            "DESC"@
        }) + " LIMIT ?"@,
        event_filters(q).len() == (if q.source is Some { 1int } else { 0int }) + (if q.kind is Some {
            1int
        } else {
            0int
        }) + (if q.severity is Some { 1int } else { 0int }),
        q.source matches Some(c) ==> event_filters(q)[0] == c.name(),
        q.kind matches Some(k) ==> event_filters(q)[if q.source is Some { 1int } else { 0int }] == k.name(),
        q.severity matches Some(v) ==> event_filters(q)[event_filters(q).len() - 1] == v.name(),
{
    reveal_strlit("");
    assert(""@ =~= Seq::<char>::empty());
}

/// The views of a list of strings.
pub open spec fn texts(v: Seq<String>) -> Seq<Seq<char>> {
    v.map_values(|s: String| s@)
}

/// Append `text` to `sql` when `present`.
fn push_clause(sql: &mut String, present: bool, text: &str)
    ensures
        final(sql)@ == old(sql)@ + clause(present, text@),
{
    if present {
        sql.append(text);
    } else {
        proof {
            assert(old(sql)@ + clause(present, text@) =~= old(sql)@);
        }
    }
}

/// Append `value`'s text to `filters` when there is one.
fn push_filter(filters: &mut Vec<String>, value: Option<&str>)
    ensures
        texts(final(filters)@) == texts(old(filters)@) + match value {
            Some(v) => seq![v@],
            None => Seq::<Seq<char>>::empty(),
        },
{
    let ghost before = filters@;
    match value {
        Some(v) => {
            filters.push(String::from_str(v));
            proof {
                assert(texts(filters@) =~= texts(before) + seq![v@]);
            }
        },
        None => {
            proof {
                assert(texts(filters@) =~= texts(before) + Seq::<Seq<char>>::empty());
            }
        },
    }
}

/// The range, limit and order of a query at time `now`.
fn range_of(start: Option<i64>, end: Option<i64>, now: i64) -> (r: (i64, i64))
    requires
        start is None ==> now - DEFAULT_RANGE_MICROS >= i64::MIN,
    ensures
        r.0 == range_start(start, now),
        r.1 == range_end(end, now),
{
    let s = match start {
        Some(s) => s,
        None => now - DEFAULT_RANGE_MICROS,
    };
    let e = match end {
        Some(e) => e,
        None => now,
    };
    (s, e)
}

impl MetricQuery {
    /// The plan of this query at time `now` (microseconds).
    pub fn plan(&self, now: i64) -> (p: QueryPlan)
        requires
            self.start is None ==> now - DEFAULT_RANGE_MICROS >= i64::MIN,
        ensures
            p.sql@ == metric_sql(*self),
            p.start == range_start(self.start, now),
            p.end == range_end(self.end, now),
            texts(p.filters@) == metric_filters(*self),
            p.limit == effective_limit(self.limit),
    {
        let (start, end) = range_of(self.start, self.end, now);
        let limit = query_limit(self.limit);
        let order = match self.order {
            Some(o) => o,
            None => SortOrder::Desc,
        };
        let mut sql = String::from_str(
            "SELECT s.series_id, s.category, s.name, s.target, s.static_tags, s.description, v.ts, v.value, v.unit, v.success, v.duration_ms, v.dynamic_tags FROM metric_values v JOIN metric_series s ON v.series_id = s.series_id WHERE v.ts >= ? AND v.ts <= ?",
        );
        push_clause(&mut sql, self.category.is_some(), " AND s.category = ?");
        push_clause(&mut sql, self.name.is_some(), " AND s.name = ?");
        push_clause(&mut sql, self.target.is_some(), " AND s.target = ?");
        sql.append(" ORDER BY v.ts ");
        sql.append(order.as_sql());
        sql.append(" LIMIT ?");
        let mut filters: Vec<String> = Vec::new();
        let category: Option<&str> = match &self.category {
            Some(c) => Some(c.as_ref()),
            None => None,
        };
        let name: Option<&str> = match &self.name {
            Some(n) => Some(n.as_str()),
            None => None,
        };
        let target: Option<&str> = match &self.target {
            Some(t) => Some(t.as_str()),
            None => None,
        };
        proof {
            assert(texts(filters@) =~= Seq::<Seq<char>>::empty());
        }
        push_filter(&mut filters, category);
        push_filter(&mut filters, name);
        push_filter(&mut filters, target);
        proof {
            assert(texts(filters@) =~= metric_filters(*self));
        }
        QueryPlan { sql, start, end, filters, limit: limit as i64 }
    }

    /// The plan of this query at the current time.
    pub fn plan_now(&self) -> (p: QueryPlan)
        ensures
            p.sql@ == metric_sql(*self),
            self.start matches Some(s) ==> p.start == s,
            self.end matches Some(e) ==> p.end == e,
            self.start is None && self.end is None ==> p.end - p.start == DEFAULT_RANGE_MICROS,
            texts(p.filters@) == metric_filters(*self),
            p.limit == effective_limit(self.limit),
    {
        let now = now_micros();
        self.plan(now)
    }
}

impl EventQuery {
    /// The plan of this query at time `now` (microseconds).
    pub fn plan(&self, now: i64) -> (p: QueryPlan)
        requires
            self.start is None ==> now - DEFAULT_RANGE_MICROS >= i64::MIN,
        ensures
            p.sql@ == event_sql(*self),
            p.start == range_start(self.start, now),
            p.end == range_end(self.end, now),
            texts(p.filters@) == event_filters(*self),
            p.limit == effective_limit(self.limit),
    {
        let (start, end) = range_of(self.start, self.end, now);
        let limit = query_limit(self.limit);
        let order = match self.order {
            Some(o) => o,
            None => SortOrder::Desc,
        };
        let mut sql = String::from_str(
            "SELECT id, ts, source, kind, severity, message, payload FROM events WHERE ts >= ? AND ts <= ?",
        );
        push_clause(&mut sql, self.source.is_some(), " AND source = ?");
        push_clause(&mut sql, self.kind.is_some(), " AND kind = ?");
        push_clause(&mut sql, self.severity.is_some(), " AND severity = ?");
        sql.append(" ORDER BY ts ");
        sql.append(order.as_sql());
        sql.append(" LIMIT ?");
        let mut filters: Vec<String> = Vec::new();
        let source: Option<&str> = match &self.source {
            Some(s) => Some(s.as_ref()),
            None => None,
        };
        let kind: Option<&str> = match &self.kind {
            Some(k) => Some(k.as_ref()),
            None => None,
        };
        let severity: Option<&str> = match &self.severity {
            Some(s) => Some(s.as_ref()),
            None => None,
        };
        proof {
            assert(texts(filters@) =~= Seq::<Seq<char>>::empty());
        }
        push_filter(&mut filters, source);
        push_filter(&mut filters, kind);
        push_filter(&mut filters, severity);
        proof {
            assert(texts(filters@) =~= event_filters(*self));
        }
        QueryPlan { sql, start, end, filters, limit: limit as i64 }
    }

    /// The plan of this query at the current time.
    pub fn plan_now(&self) -> (p: QueryPlan)
        ensures
            p.sql@ == event_sql(*self),
            self.start matches Some(s) ==> p.start == s,
            self.end matches Some(e) ==> p.end == e,
            self.start is None && self.end is None ==> p.end - p.start == DEFAULT_RANGE_MICROS,
            texts(p.filters@) == event_filters(*self),
            p.limit == effective_limit(self.limit),
    {
        let now = now_micros();
        self.plan(now)
    }
}

/// Statistics for one category.
#[derive(Debug)]
pub struct CategoryStats {
    /// The category's name.
    pub category: String,
    /// Number of values.
    pub total: u64,
    /// Number of successful values.
    pub success: u64,
    /// Number of failed values.
    pub failure: u64,
}

/// Metric statistics grouped by category and success.
#[derive(Debug)]
pub struct MetricStats {
    /// Number of values.
    pub total: u64,
    /// Number of successful values.
    pub success_count: u64,
    /// Number of failed values.
    pub failure_count: u64,
    /// Per-category statistics, ordered by category name.
    pub by_category: Vec<CategoryStats>,
}

/// Whether a statistics row `(category, success, count)` has the given
/// category and success, where given.
pub open spec fn row_matches(r: (String, bool, u64), cat: Option<Seq<char>>, success: Option<bool>) -> bool {
    (cat matches Some(c) ==> r.0@ == c) && (success matches Some(b) ==> r.1 == b)
}

/// The sum of the counts of the rows with the given category and success.
pub open spec fn count_rows(
    rows: Seq<(String, bool, u64)>,
    cat: Option<Seq<char>>,
    success: Option<bool>,
) -> nat
    decreases rows.len(),
{
    if rows.len() == 0 {
        0
    } else {
        count_rows(rows.drop_last(), cat, success) + if row_matches(rows.last(), cat, success) {
            rows.last().2 as nat
        } else {
            0
        }
    }
}

/// Any selection of rows counts no more than all of them.
pub proof fn lemma_count_le_all(rows: Seq<(String, bool, u64)>, cat: Option<Seq<char>>, success: Option<bool>)
    ensures
        count_rows(rows, cat, success) <= count_rows(rows, None, None),
    decreases rows.len(),
{
    if rows.len() > 0 {
        lemma_count_le_all(rows.drop_last(), cat, success);
    }
}

/// A prefix of the rows counts no more than all of them.
pub proof fn lemma_count_prefix(rows: Seq<(String, bool, u64)>, i: int)
    requires
        0 <= i <= rows.len(),
    ensures
        count_rows(rows.take(i), None, None) <= count_rows(rows, None, None),
    decreases rows.len() - i,
{
    if i < rows.len() {
        assert(rows.drop_last().take(i) =~= rows.take(i));
        lemma_count_prefix(rows.drop_last(), i);
    } else {
        assert(rows.take(i) =~= rows);
    }
}

/// Every value succeeds or fails.
pub proof fn lemma_count_split(rows: Seq<(String, bool, u64)>, cat: Option<Seq<char>>)
    ensures
        count_rows(rows, cat, None) == count_rows(rows, cat, Some(true)) + count_rows(
            rows,
            cat,
            Some(false),
        ),
    decreases rows.len(),
{
    if rows.len() > 0 {
        lemma_count_split(rows.drop_last(), cat);
    }
}

/// The names of the categories of per-category statistics.
pub open spec fn category_names(v: Seq<CategoryStats>) -> Seq<Seq<char>> {
    v.map_values(|c: CategoryStats| c.category@)
}

/// Whether category names strictly increase.
pub open spec fn names_increase(names: Seq<Seq<char>>) -> bool {
    forall|a: int, b: int| 0 <= a < b < names.len() ==> seq_lt(#[trigger] names[a], #[trigger] names[b])
}

/// Whether some row has category `c`.
pub open spec fn occurs(rows: Seq<(String, bool, u64)>, c: Seq<char>) -> bool {
    exists|k: int| 0 <= k < rows.len() && (#[trigger] rows[k]).0@ == c
}

/// Whether `c` is among `names`.
pub open spec fn listed(names: Seq<Seq<char>>, c: Seq<char>) -> bool {
    exists|j: int| 0 <= j < names.len() && #[trigger] names[j] == c
}

/// Whether a category's statistics count exactly the rows of that
/// category, and the category occurs.
pub open spec fn entry_ok(e: CategoryStats, rows: Seq<(String, bool, u64)>) -> bool {
    &&& e.total == count_rows(rows, Some(e.category@), None)
    &&& e.success == count_rows(rows, Some(e.category@), Some(true))
    &&& e.failure == count_rows(rows, Some(e.category@), Some(false))
    &&& occurs(rows, e.category@)
}

/// Whether `stats` aggregates `rows` exactly: totals, one entry per
/// category that occurs, in increasing order of name, each with its
/// counts.
pub open spec fn aggregates(stats: MetricStats, rows: Seq<(String, bool, u64)>) -> bool {
    let v = stats.by_category@;
    let names = category_names(v);
    &&& stats.total == count_rows(rows, None, None)
    &&& stats.success_count == count_rows(rows, None, Some(true))
    &&& stats.failure_count == count_rows(rows, None, Some(false))
    &&& names_increase(names)
    &&& forall|j: int| 0 <= j < v.len() ==> entry_ok(#[trigger] v[j], rows)
    &&& forall|k: int| 0 <= k < rows.len() ==> listed(names, (#[trigger] rows[k]).0@)
}

/// Position of the first category not below `c`, and whether it is `c`.
fn find_category(v: &Vec<CategoryStats>, c: &str) -> (r: (usize, bool))
    requires
        names_increase(category_names(v@)),
    ensures
        r.0 <= v@.len(),
        forall|j: int| 0 <= j < r.0 ==> seq_lt(#[trigger] category_names(v@)[j], c@),
        r.1 ==> r.0 < v@.len() && category_names(v@)[r.0 as int] == c@,
        !r.1 ==> forall|j: int| r.0 <= j < v@.len() ==> seq_lt(c@, #[trigger] category_names(v@)[j]),
{
    let ghost names = category_names(v@);
    let n = v.len();
    let mut i: usize = 0;
    while i < n
        invariant
            n == v@.len(),
            names == category_names(v@),
            names_increase(names),
            i <= n,
            forall|j: int| 0 <= j < i ==> seq_lt(#[trigger] names[j], c@),
        decreases n - i,
    {
        match compare_strs(v[i].category.as_str(), c) {
            Order::Less => {},
            Order::Equal => {
                return (i, true);
            },
            Order::Greater => {
                proof {
                    assert(names[i as int] == v@[i as int].category@);
                    assert forall|j: int| i <= j < n implies seq_lt(c@, #[trigger] names[j]) by {
                        if j > i {
                            lemma_seq_lt_transitive(c@, names[i as int], names[j]);
                        }
                    }
                }
                return (i, false);
            },
        }
        i = i + 1;
    }
    (i, false)
}

/// Counting over rows with one more row at the end.
proof fn lemma_count_push(
    pre: Seq<(String, bool, u64)>,
    r: (String, bool, u64),
    cat: Option<Seq<char>>,
    success: Option<bool>,
)
    ensures
        count_rows(pre.push(r), cat, success) == count_rows(pre, cat, success) + if row_matches(
            r,
            cat,
            success,
        ) {
            r.2 as nat
        } else {
            0
        },
{
    assert(pre.push(r).drop_last() =~= pre);
}

/// An entry of another category stays exact when a row is added.
proof fn lemma_entry_other(e: CategoryStats, pre: Seq<(String, bool, u64)>, r: (String, bool, u64))
    requires
        entry_ok(e, pre),
        e.category@ != r.0@,
    ensures
        entry_ok(e, pre.push(r)),
{
    lemma_count_push(pre, r, Some(e.category@), None);
    lemma_count_push(pre, r, Some(e.category@), Some(true));
    lemma_count_push(pre, r, Some(e.category@), Some(false));
    let k = choose|k: int| 0 <= k < pre.len() && (#[trigger] pre[k]).0@ == e.category@;
    assert(pre.push(r)[k] == pre[k]);
}

/// The entry of the row's category, updated by the row's count, is exact.
proof fn lemma_entry_same(
    old_e: Option<CategoryStats>,
    e: CategoryStats,
    pre: Seq<(String, bool, u64)>,
    r: (String, bool, u64),
)
    requires
        e.category@ == r.0@,
        match old_e {
            Some(o) => entry_ok(o, pre) && o.category@ == r.0@ && e.total == o.total + r.2
                && e.success == o.success + if r.1 { r.2 as int } else { 0 } && e.failure
                == o.failure + if r.1 { 0 } else { r.2 as int },
            None => !occurs(pre, r.0@) && e.total == r.2 && e.success == (if r.1 { r.2 } else { 0 })
                && e.failure == (if r.1 { 0 } else { r.2 }),
        },
    ensures
        entry_ok(e, pre.push(r)),
{
    lemma_count_push(pre, r, Some(e.category@), None);
    lemma_count_push(pre, r, Some(e.category@), Some(true));
    lemma_count_push(pre, r, Some(e.category@), Some(false));
    if old_e is None {
        lemma_none_counts(pre, r.0@);
    }
    assert(pre.push(r)[pre.len() as int] == r);
}

/// A category that no row has counts nothing.
proof fn lemma_none_counts(rows: Seq<(String, bool, u64)>, c: Seq<char>)
    requires
        !occurs(rows, c),
    ensures
        count_rows(rows, Some(c), None) == 0,
        count_rows(rows, Some(c), Some(true)) == 0,
        count_rows(rows, Some(c), Some(false)) == 0,
    decreases rows.len(),
{
    if rows.len() > 0 {
        let r = rows.drop_last();
        assert forall|k: int| 0 <= k < r.len() implies (#[trigger] r[k]).0@ != c by {
            assert(r[k] == rows[k]);
        }
        lemma_none_counts(r, c);
        assert(rows[rows.len() - 1] == rows.last());
    }
}

/// Aggregate statistics rows `(category, success, count)` into totals and
/// per-category statistics ordered by category.
pub fn aggregate_stats(rows: &Vec<(String, bool, u64)>) -> (s: MetricStats)
    requires
        count_rows(rows@, None, None) <= u64::MAX,
    ensures
        aggregates(s, rows@),
{
    let ghost all = rows@;
    let mut v: Vec<CategoryStats> = Vec::new();
    let mut total: u64 = 0;
    let mut success_count: u64 = 0;
    let mut failure_count: u64 = 0;
    let n = rows.len();
    proof {
        assert(all.take(0) =~= Seq::<(String, bool, u64)>::empty());
        assert(category_names(v@) =~= Seq::<Seq<char>>::empty());
    }
    for i in 0..n
        invariant
            n == all.len(),
            all == rows@,
            count_rows(all, None, None) <= u64::MAX,
            aggregates(
                MetricStats { total, success_count, failure_count, by_category: v },
                all.take(i as int),
            ),
    {
        let ghost pre = all.take(i as int);
        let ghost old_v = v@;
        let ghost old_names = category_names(old_v);
        let row = &rows[i];
        let cnt = row.2;
        proof {
            assert(all.take(i + 1) =~= pre.push(all[i as int]));
            lemma_count_prefix(all, i + 1);
            lemma_count_push(pre, *row, None, None);
            lemma_count_push(pre, *row, None, Some(true));
            lemma_count_push(pre, *row, None, Some(false));
            lemma_count_le_all(pre.push(*row), None, Some(true));
            lemma_count_le_all(pre.push(*row), None, Some(false));
            lemma_count_le_all(pre.push(*row), Some(row.0@), None);
            lemma_count_le_all(pre.push(*row), Some(row.0@), Some(true));
            lemma_count_le_all(pre.push(*row), Some(row.0@), Some(false));
            lemma_count_push(pre, *row, Some(row.0@), None);
            lemma_count_push(pre, *row, Some(row.0@), Some(true));
            lemma_count_push(pre, *row, Some(row.0@), Some(false));
        }
        total = total + cnt;
        if row.1 {
            success_count = success_count + cnt;
        } else {
            failure_count = failure_count + cnt;
        }
        let (pos, found) = find_category(&v, row.0.as_str());
        if found {
            let e = &v[pos];
            proof {
                assert(old_names[pos as int] == old_v[pos as int].category@);
                assert(entry_ok(old_v[pos as int], pre));
            }
            let updated = CategoryStats {
                category: e.category.clone(),
                total: e.total + cnt,
                success: if row.1 {
                    e.success + cnt
                } else {
                    e.success
                },
                failure: if row.1 {
                    e.failure
                } else {
                    e.failure + cnt
                },
            };
            proof {
                lemma_entry_same(Some(old_v[pos as int]), updated, pre, *row);
            }
            v.set(pos, updated);
            proof {
                assert(category_names(v@) =~= old_names);
                assert forall|j: int| 0 <= j < v@.len() implies entry_ok(#[trigger] v@[j], pre.push(*row)) by {
                    if j != pos {
                        assert(v@[j] == old_v[j]);
                        assert(old_names[j] == old_v[j].category@);
                        lemma_seq_lt_irreflexive(row.0@);
                        if j < pos {
                            assert(seq_lt(old_names[j], old_names[pos as int]));
                        } else {
                            assert(seq_lt(old_names[pos as int], old_names[j]));
                        }
                        lemma_entry_other(old_v[j], pre, *row);
                    }
                }
                let names = category_names(v@);
                assert forall|k: int| 0 <= k < pre.push(*row).len() implies listed(names, (#[trigger] pre.push(*row)[k]).0@) by {
                    if k == pre.len() {
                        assert(names[pos as int] == row.0@);
                    } else {
                        assert(pre.push(*row)[k] == pre[k]);
                    }
                }
            }
        } else {
            let fresh = CategoryStats {
                category: row.0.clone(),
                total: cnt,
                success: if row.1 {
                    cnt
                } else {
                    0
                },
                failure: if row.1 {
                    0
                } else {
                    cnt
                },
            };
            proof {
                assert(!occurs(pre, row.0@)) by {
                    if occurs(pre, row.0@) {
                        let k = choose|k: int| 0 <= k < pre.len() && (#[trigger] pre[k]).0@ == row.0@;
                        assert(listed(old_names, pre[k].0@));
                        let j = choose|j: int| 0 <= j < old_names.len() && #[trigger] old_names[j] == row.0@;
                        lemma_seq_lt_irreflexive(row.0@);
                    }
                }
                lemma_entry_same(None, fresh, pre, *row);
            }
            v.insert(pos, fresh);
            proof {
                let names = category_names(v@);
                assert(names =~= old_names.insert(pos as int, row.0@));
                assert forall|a: int, b: int| 0 <= a < b < names.len() implies seq_lt(
                    #[trigger] names[a],
                    #[trigger] names[b],
                ) by {
                    if b < pos {
                    } else if a < pos && b == pos {
                    } else if a < pos {
                        lemma_seq_lt_transitive(names[a], row.0@, names[b]);
                    } else if a == pos {
                    } else {
                    }
                }
                assert forall|j: int| 0 <= j < v@.len() implies entry_ok(#[trigger] v@[j], pre.push(*row)) by {
                    if j != pos {
                        let jj = if j < pos { j } else { j - 1 };
                        assert(v@[j] == old_v[jj]);
                        assert(old_names[jj] == old_v[jj].category@);
                        lemma_seq_lt_irreflexive(row.0@);
                        lemma_entry_other(old_v[jj], pre, *row);
                    }
                }
                assert forall|k: int| 0 <= k < pre.push(*row).len() implies listed(names, (#[trigger] pre.push(*row)[k]).0@) by {
                    if k == pre.len() {
                        assert(names[pos as int] == row.0@);
                    } else {
                        assert(pre.push(*row)[k] == pre[k]);
                        assert(listed(old_names, pre[k].0@));
                        let jj = choose|jj: int| 0 <= jj < old_names.len() && #[trigger] old_names[jj] == pre[k].0@;
                        let j = if jj < pos { jj } else { jj + 1 };
                        assert(names[j] == old_names[jj]);
                    }
                }
            }
        }
    }
    proof {
        assert(all.take(n as int) =~= all);
    }
    MetricStats { total, success_count, failure_count, by_category: v }
}

/// The statistics add up: successes and failures make the total, overall
/// and in each category.
pub proof fn lemma_stats_balance(s: MetricStats, rows: Seq<(String, bool, u64)>)
    requires
        aggregates(s, rows),
    ensures
        s.total == s.success_count + s.failure_count,
        forall|j: int| 0 <= j < s.by_category@.len() ==> (#[trigger] s.by_category@[j]).total
            == s.by_category@[j].success + s.by_category@[j].failure,
{
    lemma_count_split(rows, None);
    assert forall|j: int| 0 <= j < s.by_category@.len() implies (#[trigger] s.by_category@[j]).total
        == s.by_category@[j].success + s.by_category@[j].failure by {
        lemma_count_split(rows, Some(s.by_category@[j].category@));
    }
}

/// What `serde_json` makes of a JSON object of strings: its pairs in
/// increasing key order, or nothing when the text is not such an object.
pub uninterp spec fn json_string_map(text: Seq<char>) -> Option<Seq<(Seq<char>, Seq<char>)>>;

/// Calls `serde_json::from_str::<BTreeMap<String, String>>` and hands out
/// the pairs of the map; the outcome is named `json_string_map` of the text.
#[verifier::external_body]
fn parse_json_string_map(text: &str) -> (r: Option<Vec<(String, String)>>)
    ensures
        match (r, json_string_map(text@)) {
            (Some(v), Some(p)) => pairs_view(v@) == p,
            (None, None) => true,
            _ => false,
        },
{
    match serde_json::from_str::<std::collections::BTreeMap<String, String>>(text) {
        Ok(m) => Some(m.into_iter().collect()),
        Err(_) => None,
    }
}

/// The map of a list of pairs, later pairs replacing earlier ones.
pub open spec fn pairs_map(p: Seq<(Seq<char>, Seq<char>)>) -> Map<Seq<char>, Seq<char>>
    decreases p.len(),
{
    if p.len() == 0 {
        Map::empty()
    } else {
        pairs_map(p.drop_last()).insert(p.last().0, p.last().1)
    }
}

/// What a stored JSON map decodes to: nothing for an empty text or `{}`,
/// the pairs of a JSON object of strings, and nothing for anything else.
pub open spec fn stored_map(s: Seq<char>) -> Map<Seq<char>, Seq<char>> {
    if s.len() == 0 || s == "{}"@ {
        Map::empty()
    } else {
        match json_string_map(s) {
            Some(p) => pairs_map(p),
            None => Map::empty(),
        }
    }
}

/// Decode a stored JSON map of strings; text that is not one decodes to
/// an empty map.
pub fn parse_map(s: &str) -> (m: TagMap)
    ensures
        m@ == stored_map(s@),
        sorted_entries(m.entries()),
{
    if s.unicode_len() == 0 || str_eq(s, "{}") {
        return TagMap::new();
    }
    match parse_json_string_map(s) {
        None => TagMap::new(),
        Some(pairs) => {
            let ghost p = pairs_view(pairs@);
            let mut m = TagMap::new();
            let n = pairs.len();
            proof {
                assert(p.take(0) =~= Seq::<(Seq<char>, Seq<char>)>::empty());
            }
            for i in 0..n
                invariant
                    n == pairs@.len(),
                    p == pairs_view(pairs@),
                    m@ == pairs_map(p.take(i as int)),
                    sorted_entries(m.entries()),
            {
                proof {
                    assert(p.take(i + 1).drop_last() =~= p.take(i as int));
                    assert(p[i as int] == (pairs@[i as int].0@, pairs@[i as int].1@));
                }
                m.insert(pairs[i].0.clone(), pairs[i].1.clone());
            }
            proof {
                assert(p.take(n as int) =~= p);
            }
            m
        },
    }
}

impl Event {
    /// An event read back from storage: the source, kind and severity
    /// named by their texts (`System`, `System` and `Info` for unknown
    /// names), and the payload decoded from its JSON text (`{}` when
    /// missing).
    pub fn from_row(
        id: i64,
        ts: i64,
        source: &str,
        kind: &str,
        severity: &str,
        message: String,
        payload: Option<&str>,
    ) -> (e: Event)
        ensures
            e.id == Some(id),
            e.ts == ts,
            (exists|x: EventSource| eq_ignore_ascii_case(source@, x.name())) ==> eq_ignore_ascii_case(source@, e.source.name()),
            !(exists|x: EventSource| eq_ignore_ascii_case(source@, x.name())) ==> e.source == EventSource::System,
            (exists|x: EventKind| eq_ignore_ascii_case(kind@, x.name())) ==> eq_ignore_ascii_case(kind@, e.kind.name()),
            !(exists|x: EventKind| eq_ignore_ascii_case(kind@, x.name())) ==> e.kind == EventKind::System,
            (exists|x: EventSeverity| eq_ignore_ascii_case(severity@, x.name())) ==> eq_ignore_ascii_case(severity@, e.severity.name()),
            !(exists|x: EventSeverity| eq_ignore_ascii_case(severity@, x.name())) ==> e.severity == EventSeverity::Info,
            e.message@ == message@,
            e.payload@ == match payload {
                Some(p) => stored_map(p@),
                None => Map::<Seq<char>, Seq<char>>::empty(),
            },
            sorted_entries(e.payload.entries()),
    {
        let source = match EventSource::parse(source) {
            Some(x) => x,
            None => EventSource::System,
        };
        let kind = match EventKind::parse(kind) {
            Some(x) => x,
            None => EventKind::System,
        };
        let severity = match EventSeverity::parse(severity) {
            Some(x) => x,
            None => EventSeverity::Info,
        };
        let payload = match payload {
            Some(p) => parse_map(p),
            None => {
                proof {
                    reveal_strlit("{}");
                }
                parse_map("{}")
            },
        };
        Event { id: Some(id), ts, source, kind, severity, message, payload }
    }
}

} // verus!
