//! The web API's request handling: query parameters and the storage
//! queries they stand for.
use vstd::prelude::*;
use crate::clock::{earliest_micros, now_micros};
use crate::storage::query::{EventQuery, MetricQuery, SortOrder};
use crate::storage::types::{EventKind, EventSeverity, EventSource, MetricCategory};
use crate::text::{ascii_lower_text, digit_value, digits_value, eq_ignore_ascii_case, is_ascii_text, str_eq};

verus! {

broadcast use vstd::string::group_string_axioms;

/// Query parameters of the metrics API.
#[derive(Debug)]
pub struct MetricsQueryParams {
    /// Category name.
    pub category: Option<String>,
    /// Metric name.
    pub name: Option<String>,
    /// Target.
    pub target: Option<String>,
    /// Number of rows.
    pub limit: Option<u32>,
    /// `asc` or `desc`, in any case.
    pub order: Option<String>,
    /// Time range: `1h`, `6h`, `12h`, `24h`, `7d` or `30d`.
    pub range: Option<String>,
}

/// Query parameters of the events API.
#[derive(Debug)]
pub struct EventsQueryParams {
    /// Source name.
    pub source: Option<String>,
    /// Kind name.
    pub kind: Option<String>,
    /// Severity name.
    pub severity: Option<String>,
    /// Number of rows.
    pub limit: Option<u32>,
    /// `asc` or `desc`, in any case.
    pub order: Option<String>,
    /// Time range: `1h`, `6h`, `12h`, `24h`, `7d` or `30d`.
    pub range: Option<String>,
}

/// Query parameters of the metrics statistics API.
#[derive(Debug)]
pub struct StatsQueryParams {
    /// Time range: `1h`, `6h`, `12h`, `24h`, `7d` or `30d`.
    pub range: Option<String>,
}

/// What `str::to_lowercase` gives for a text.
pub uninterp spec fn lower_case_text(s: Seq<char>) -> Seq<char>;

/// Calls `str::to_lowercase`; the result is named `lower_case_text` of
/// the text. On ASCII text, the Unicode lower case of each character is
/// its ASCII lower case, one character for one.
#[verifier::external_body]
fn to_lower_case(s: &str) -> (r: String)
    ensures
        r@ == lower_case_text(s@),
        is_ascii_text(s@) ==> r@ == ascii_lower_text(s@),
{
    s.to_lowercase()
}

/// The sort order a parameter asks for: `asc` or `desc` after lowering
/// its case; nothing otherwise.
pub open spec fn sort_order_of(s: Option<Seq<char>>) -> Option<SortOrder> {
    match s {
        Some(t) => if lower_case_text(t) == "asc"@ {
            Some(SortOrder::Asc)
        } else if lower_case_text(t) == "desc"@ {
            Some(SortOrder::Desc)
        } else {
            None
        },
        None => None,
    }
}

/// The sort order named by a text after ASCII lower-casing.
pub open spec fn ascii_sort_order_of(t: Seq<char>) -> Option<SortOrder> {
    if ascii_lower_text(t) == "asc"@ {
        Some(SortOrder::Asc)
    } else if ascii_lower_text(t) == "desc"@ {
        Some(SortOrder::Desc)
    } else {
        None
    }
}

/// The view of an optional text.
pub open spec fn opt_view(s: Option<String>) -> Option<Seq<char>> {
    match s {
        Some(t) => Some(t@),
        None => None,
    }
}

/// Parse a sort order parameter.
pub fn parse_sort_order(s: Option<String>) -> (r: Option<SortOrder>)
    ensures
        r == sort_order_of(opt_view(s)),
        match s {
            Some(t) => is_ascii_text(t@) ==> r == ascii_sort_order_of(t@),
            None => true,
        },
{
    match s {
        None => None,
        Some(order) => {
            let lower = to_lower_case(order.as_str());
            if str_eq(lower.as_str(), "asc") {
                Some(SortOrder::Asc)
            } else if str_eq(lower.as_str(), "desc") {
                Some(SortOrder::Desc)
            } else {
                None
            }
        },
    }
}

/// The length of a named time range in microseconds: `1h`, `6h`, `12h`,
/// `24h`, `7d` or `30d`.
pub open spec fn range_micros(s: Seq<char>) -> Option<i64> {
    if s == "1h"@ {
        Some(3_600_000_000)
    } else if s == "6h"@ {
        Some(21_600_000_000)
    } else if s == "12h"@ {
        Some(43_200_000_000)
    } else if s == "24h"@ {
        Some(86_400_000_000)
    } else if s == "7d"@ {
        Some(604_800_000_000)
    } else if s == "30d"@ {
        Some(2_592_000_000_000)
    } else {
        None
    }
}

/// Each named range is its count of hours (`h`) or days (`d`) in
/// microseconds: the count times 3 600 000 000 or 86 400 000 000. The
/// names are `1h`, `6h`, `12h`, `24h`, `7d` and `30d`, and in that order
/// each range is longer than the one before.
pub proof fn lemma_range_lengths(s: Seq<char>)
    ensures
        range_micros(s) matches Some(v) ==> s.len() >= 2 && (if s.last() == 'h' {
            v == digits_value(s.drop_last()) * 3_600_000_000
        } else {
            s.last() == 'd' && v == digits_value(s.drop_last()) * 86_400_000_000
        }),
        range_micros(s) is Some <==> (s == "1h"@ || s == "6h"@ || s == "12h"@ || s == "24h"@ || s == "7d"@
            || s == "30d"@),
        range_micros("1h"@)->Some_0 < range_micros("6h"@)->Some_0,
        range_micros("6h"@)->Some_0 < range_micros("12h"@)->Some_0,
        range_micros("12h"@)->Some_0 < range_micros("24h"@)->Some_0,
        range_micros("24h"@)->Some_0 < range_micros("7d"@)->Some_0,
        range_micros("7d"@)->Some_0 < range_micros("30d"@)->Some_0,
{
    reveal_strlit("1h");
    reveal_strlit("6h");
    reveal_strlit("12h");
    reveal_strlit("24h");
    reveal_strlit("7d");
    reveal_strlit("30d");
    assert("1h"@[0] == '1' && "6h"@[0] == '6' && "12h"@[0] == '1' && "24h"@[0] == '2' && "7d"@[0] == '7'
        && "30d"@[0] == '3');
    assert("1h"@.len() == 2 && "12h"@.len() == 3 && "24h"@.len() == 3);
    assert(range_micros("6h"@) == Some(21_600_000_000i64));
    assert(range_micros("12h"@) == Some(43_200_000_000i64));
    assert(range_micros("24h"@) == Some(86_400_000_000i64));
    assert(range_micros("7d"@) == Some(604_800_000_000i64));
    assert(range_micros("30d"@) == Some(2_592_000_000_000i64));
    assert(digits_value(Seq::<char>::empty()) == 0);
    assert(digit_value('1') == 1 && digit_value('2') == 2 && digit_value('3') == 3 && digit_value('4') == 4);
    assert(digit_value('6') == 6 && digit_value('7') == 7 && digit_value('0') == 0);
    if range_micros(s) is Some {
        if s == "1h"@ {
            assert(s.drop_last() =~= seq!['1']);
            assert(digits_value(seq!['1']) == 1) by {
                assert(seq!['1'].drop_last() =~= Seq::<char>::empty());
            }
        } else if s == "6h"@ {
            assert(s.drop_last() =~= seq!['6']);
            assert(digits_value(seq!['6']) == 6) by {
                assert(seq!['6'].drop_last() =~= Seq::<char>::empty());
            }
        } else if s == "12h"@ {
            assert(s.drop_last() =~= seq!['1', '2']);
            assert(digits_value(seq!['1', '2']) == 12) by {
                assert(seq!['1', '2'].drop_last() =~= seq!['1']);
                assert(seq!['1'].drop_last() =~= Seq::<char>::empty());
                assert(digits_value(seq!['1']) == 1);
                assert(seq!['1', '2'].last() == '2');
            }
        } else if s == "24h"@ {
            assert(s.drop_last() =~= seq!['2', '4']);
            assert(digits_value(seq!['2', '4']) == 24) by {
                assert(seq!['2', '4'].drop_last() =~= seq!['2']);
                assert(seq!['2'].drop_last() =~= Seq::<char>::empty());
                assert(digits_value(seq!['2']) == 2);
                assert(seq!['2', '4'].last() == '4');
            }
        } else if s == "7d"@ {
            assert(s.drop_last() =~= seq!['7']);
            assert(digits_value(seq!['7']) == 7) by {
                assert(seq!['7'].drop_last() =~= Seq::<char>::empty());
            }
        } else {
            assert(s.drop_last() =~= seq!['3', '0']);
            assert(digits_value(seq!['3', '0']) == 30) by {
                assert(seq!['3', '0'].drop_last() =~= seq!['3']);
                assert(seq!['3'].drop_last() =~= Seq::<char>::empty());
                assert(digits_value(seq!['3']) == 3);
                assert(seq!['3', '0'].last() == '0');
            }
        }
    }
}

/// The length of a named time range in microseconds.
pub fn range_length(s: &str) -> (r: Option<i64>)
    ensures
        r == range_micros(s@),
        r matches Some(n) ==> 0 < n <= 2_592_000_000_000,
{
    if str_eq(s, "1h") {
        Some(3_600_000_000)
    } else if str_eq(s, "6h") {
        Some(21_600_000_000)
    } else if str_eq(s, "12h") {
        Some(43_200_000_000)
    } else if str_eq(s, "24h") {
        Some(86_400_000_000)
    } else if str_eq(s, "7d") {
        Some(604_800_000_000)
    } else if str_eq(s, "30d") {
        Some(2_592_000_000_000)
    } else {
        None
    }
}

/// The start of a named range ending at `now`, in microseconds.
pub open spec fn range_start_at(range: Option<Seq<char>>, now: i64) -> Option<int> {
    match range {
        Some(r) => match range_micros(r) {
            Some(n) => Some(now - n),
            None => None,
        },
        None => None,
    }
}

/// The start of a named range that ends at `now` (microseconds).
pub fn parse_range_at(range: &Option<String>, now: i64) -> (r: Option<i64>)
    requires
        now >= earliest_micros(),
    ensures
        match (r, range_start_at(opt_view(*range), now)) {
            (Some(a), Some(b)) => a == b,
            (None, None) => true,
            _ => false,
        },
{
    match range {
        None => None,
        Some(text) => match range_length(text.as_str()) {
            Some(n) => Some(now - n),
            None => None,
        },
    }
}

/// The start of a named range that ends now.
pub fn parse_range(range: &Option<String>) -> (r: Option<i64>)
    ensures
        r is Some <==> (range matches Some(t) && range_micros(t@) is Some),
{
    let now = now_micros();
    parse_range_at(range, now)
}

/// A text that is present and not empty.
pub open spec fn non_empty(s: Option<String>) -> Option<Seq<char>> {
    match s {
        Some(t) => if t@.len() > 0 {
            Some(t@)
        } else {
            None
        },
        None => None,
    }
}

/// Keep a text only when it is not empty.
fn keep_non_empty(s: &Option<String>) -> (r: Option<String>)
    ensures
        opt_view(r) == non_empty(*s),
{
    match s {
        Some(t) => if t.as_str().unicode_len() > 0 {
            Some(t.clone())
        } else {
            None
        },
        None => None,
    }
}

/// The metric category a parameter names, if any (case aside).
pub open spec fn named_category(s: Option<String>, c: Option<MetricCategory>) -> bool {
    match s {
        Some(t) => match c {
            Some(x) => eq_ignore_ascii_case(t@, x.name()),
            None => forall|x: MetricCategory| !eq_ignore_ascii_case(t@, x.name()),
        },
        None => c is None,
    }
}

impl MetricsQueryParams {
    /// The metric query of these parameters at time `now`: the category
    /// they name, non-empty name and target filters, the range's start,
    /// the limit and the order.
    pub fn to_query_at(&self, now: i64) -> (q: MetricQuery)
        requires
            now >= earliest_micros(),
        ensures
            named_category(self.category, q.category),
            opt_view(q.name) == non_empty(self.name),
            opt_view(q.target) == non_empty(self.target),
            match (q.start, range_start_at(opt_view(self.range), now)) {
                (Some(a), Some(b)) => a == b,
                (None, None) => true,
                _ => false,
            },
            q.end is None,
            q.limit == self.limit,
            q.order == sort_order_of(opt_view(self.order)),
    {
        let category = match &self.category {
            Some(c) => MetricCategory::parse(c.as_str()),
            None => None,
        };
        MetricQuery {
            category,
            name: keep_non_empty(&self.name),
            target: keep_non_empty(&self.target),
            start: parse_range_at(&self.range, now),
            end: None,
            limit: self.limit,
            order: parse_sort_order(self.order.clone()),
        }
    }

    /// The metric query of these parameters now.
    pub fn to_query(&self) -> (q: MetricQuery)
        ensures
            named_category(self.category, q.category),
            opt_view(q.name) == non_empty(self.name),
            opt_view(q.target) == non_empty(self.target),
            q.start is Some <==> (self.range matches Some(t) && range_micros(t@) is Some),
            q.end is None,
            q.limit == self.limit,
            q.order == sort_order_of(opt_view(self.order)),
    {
        let now = now_micros();
        self.to_query_at(now)
    }
}

impl EventsQueryParams {
    /// The event query of these parameters at time `now`: the source, kind
    /// and severity they name, the range's start, the limit and the order.
    pub fn to_query_at(&self, now: i64) -> (q: EventQuery)
        requires
            now >= earliest_micros(),
        ensures
            match self.source {
                Some(t) => match q.source {
                    Some(x) => eq_ignore_ascii_case(t@, x.name()),
                    None => forall|x: EventSource| !eq_ignore_ascii_case(t@, x.name()),
                },
                None => q.source is None,
            },
            match self.kind {
                Some(t) => match q.kind {
                    Some(x) => eq_ignore_ascii_case(t@, x.name()),
                    None => forall|x: EventKind| !eq_ignore_ascii_case(t@, x.name()),
                },
                None => q.kind is None,
            },
            match self.severity {
                Some(t) => match q.severity {
                    Some(x) => eq_ignore_ascii_case(t@, x.name()),
                    None => forall|x: EventSeverity| !eq_ignore_ascii_case(t@, x.name()),
                },
                None => q.severity is None,
            },
            match (q.start, range_start_at(opt_view(self.range), now)) {
                (Some(a), Some(b)) => a == b,
                (None, None) => true,
                _ => false,
            },
            q.end is None,
            q.limit == self.limit,
            q.order == sort_order_of(opt_view(self.order)),
    {
        let source = match &self.source {
            Some(s) => EventSource::parse(s.as_str()),
            None => None,
        };
        let kind = match &self.kind {
            Some(k) => EventKind::parse(k.as_str()),
            None => None,
        };
        let severity = match &self.severity {
            Some(s) => EventSeverity::parse(s.as_str()),
            None => None,
        };
        EventQuery {
            source,
            kind,
            severity,
            start: parse_range_at(&self.range, now),
            end: None,
            limit: self.limit,
            order: parse_sort_order(self.order.clone()),
        }
    }

    /// The event query of these parameters now.
    pub fn to_query(&self) -> (q: EventQuery)
        ensures
            q.start is Some <==> (self.range matches Some(t) && range_micros(t@) is Some),
            q.end is None,
            q.limit == self.limit,
            q.order == sort_order_of(opt_view(self.order)),
            self.source is None ==> q.source is None,
            self.kind is None ==> q.kind is None,
            self.severity is None ==> q.severity is None,
            self.source matches Some(t) ==> match q.source {
                Some(x) => eq_ignore_ascii_case(t@, x.name()),
                None => forall|x: EventSource| !eq_ignore_ascii_case(t@, x.name()),
            },
            self.kind matches Some(t) ==> match q.kind {
                Some(x) => eq_ignore_ascii_case(t@, x.name()),
                None => forall|x: EventKind| !eq_ignore_ascii_case(t@, x.name()),
            },
            self.severity matches Some(t) ==> match q.severity {
                Some(x) => eq_ignore_ascii_case(t@, x.name()),
                None => forall|x: EventSeverity| !eq_ignore_ascii_case(t@, x.name()),
            },
    {
        let now = now_micros();
        self.to_query_at(now)
    }
}

} // verus!
