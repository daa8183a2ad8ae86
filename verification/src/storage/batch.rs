//! The write path's batching policy: a buffer of metric values that is
//! flushed when it holds enough items or has waited long enough, and the
//! writer's decisions for each command it receives.
use vstd::prelude::*;
use crate::clock::{elapsed_since, instant_now};
use crate::storage::types::{Event, MetricSeries};
use crate::time::Duration;

verus! {

/// Default maximum number of items in the buffer before a flush.
pub const DEFAULT_BATCH_SIZE: usize = 500;

/// Default channel capacity.
pub const DEFAULT_CHANNEL_CAPACITY: usize = 10_000;

/// Default maximum time before the buffer is flushed: one second.
pub fn default_batch_flush_interval() -> (d: Duration)
    ensures
        d@ == 1_000_000_000,
{
    Duration::from_secs(1)
}

/// How long the writer waits when its buffer is empty: 60 seconds.
pub open spec fn idle_wait_nanos() -> nat {
    60_000_000_000
}

/// A buffer for batch inserts, flushed by size or by age.
pub struct BatchBuffer<T> {
    items: Vec<T>,
    last_flush: std::time::Instant,
    size_threshold: usize,
    time_threshold: Duration,
}

/// Whether a buffer of `len` items, `elapsed` after its last flush (or its
/// first item), is due to be flushed.
pub open spec fn flush_due(len: nat, size_threshold: nat, time_threshold: nat, elapsed: nat) -> bool {
    len >= size_threshold || (len > 0 && elapsed >= time_threshold)
}

/// How long to wait before the buffer may be due: 60 seconds when empty,
/// else what remains of the time threshold.
pub open spec fn wait_nanos(len: nat, time_threshold: nat, elapsed: nat) -> nat {
    if len == 0 {
        idle_wait_nanos()
    } else if time_threshold >= elapsed {
        (time_threshold - elapsed) as nat
    } else {
        0
    }
}

impl<T> BatchBuffer<T> {
    /// The buffered items, oldest first.
    pub closed spec fn items(&self) -> Seq<T> {
        self.items@
    }

    /// The number of items that triggers a flush.
    pub closed spec fn size_threshold(&self) -> nat {
        self.size_threshold as nat
    }

    /// The age that triggers a flush, in nanoseconds.
    pub closed spec fn time_threshold(&self) -> nat {
        self.time_threshold@
    }

    /// An empty buffer with the given thresholds.
    pub fn new(size_threshold: usize, time_threshold: Duration) -> (b: BatchBuffer<T>)
        ensures
            b.items().len() == 0,
            b.size_threshold() == size_threshold,
            b.time_threshold() == time_threshold@,
    {
        BatchBuffer {
            items: Vec::with_capacity(size_threshold),
            last_flush: instant_now(),
            size_threshold,
            time_threshold,
        }
    }

    /// Add an item at the end. The age of the buffer is counted from its
    /// first item, so an idle buffer is not overdue at once.
    pub fn push(&mut self, item: T)
        ensures
            final(self).items() == old(self).items().push(item),
            final(self).size_threshold() == old(self).size_threshold(),
            final(self).time_threshold() == old(self).time_threshold(),
    {
        if self.items.len() == 0 {
            self.last_flush = instant_now();
        }
        self.items.push(item);
    }

    /// Whether the buffer is due, `elapsed` after its last flush.
    pub fn should_flush_after(&self, elapsed: Duration) -> (b: bool)
        ensures
            b == flush_due(
                self.items().len(),
                self.size_threshold(),
                self.time_threshold(),
                elapsed@,
            ),
    {
        self.items.len() >= self.size_threshold || (self.items.len() > 0
            && !elapsed.is_shorter_than(&self.time_threshold))
    }

    /// Whether the buffer is due now: always when it holds the threshold
    /// number of items, never when it is empty, otherwise by its age.
    pub fn should_flush(&self) -> (b: bool)
        ensures
            self.items().len() >= self.size_threshold() ==> b,
            self.items().len() == 0 && self.size_threshold() > 0 ==> !b,
            exists|elapsed: nat|
                b == flush_due(
                    self.items().len(),
                    self.size_threshold(),
                    self.time_threshold(),
                    elapsed,
                ),
    {
        let elapsed = elapsed_since(&self.last_flush);
        self.should_flush_after(elapsed)
    }

    /// How long to wait, `elapsed` after the last flush, before the buffer
    /// may be due.
    pub fn time_until_flush_after(&self, elapsed: Duration) -> (d: Duration)
        ensures
            d@ == wait_nanos(self.items().len(), self.time_threshold(), elapsed@),
    {
        if self.items.len() == 0 {
            Duration::from_secs(60)
        } else {
            self.time_threshold.saturating_sub(&elapsed)
        }
    }

    /// How long to wait now before the buffer may be due: 60 seconds when
    /// it is empty, otherwise at most the time threshold.
    pub fn time_until_flush(&self) -> (d: Duration)
        ensures
            self.items().len() == 0 ==> d@ == idle_wait_nanos(),
            self.items().len() > 0 ==> d@ <= self.time_threshold(),
    {
        let elapsed = elapsed_since(&self.last_flush);
        self.time_until_flush_after(elapsed)
    }

    /// Remove and return all items, restarting the age of the buffer.
    pub fn take(&mut self) -> (v: Vec<T>)
        ensures
            v@ == old(self).items(),
            final(self).items().len() == 0,
            final(self).size_threshold() == old(self).size_threshold(),
            final(self).time_threshold() == old(self).time_threshold(),
    {
        self.last_flush = instant_now();
        let mut taken = Vec::new();
        std::mem::swap(&mut taken, &mut self.items);
        taken
    }

    /// Whether the buffer holds no items.
    pub fn is_empty(&self) -> (b: bool)
        ensures
            b == (self.items().len() == 0),
    {
        self.items.len() == 0
    }
}

/// A full buffer is due whatever its age, and an empty one never is.
pub proof fn lemma_flush_policy(len: nat, size_threshold: nat, time_threshold: nat, elapsed: nat)
    ensures
        len >= size_threshold ==> flush_due(len, size_threshold, time_threshold, elapsed),
        len == 0 && size_threshold > 0 ==> !flush_due(len, size_threshold, time_threshold, elapsed),
        len > 0 && elapsed >= time_threshold ==> flush_due(len, size_threshold, time_threshold, elapsed),
        len > 0 ==> wait_nanos(len, time_threshold, elapsed) <= time_threshold,
        len > 0 && wait_nanos(len, time_threshold, elapsed) == 0 ==> flush_due(
            len,
            size_threshold,
            time_threshold,
            elapsed,
        ),
{
}

/// Commands sent to the writer. `V` is the metric value type.
pub enum Command<V> {
    /// Upsert a metric series.
    UpsertMetricSeries(MetricSeries),
    /// Insert a metric value (buffered).
    InsertMetricValue(V),
    /// Insert an event (written at once).
    InsertEvent(Event),
    /// Remove metric values older than the retention in days.
    CleanupMetricValues { retention_days: u32 },
    /// Remove events older than the retention in days.
    CleanupEvents { retention_days: u32 },
    /// Write out the buffer now.
    Flush,
    /// Write out the buffer and stop.
    Shutdown,
}

/// A write the writer performs.
pub enum WriteAction<V> {
    /// Upsert a metric series.
    UpsertSeries(MetricSeries),
    /// Insert a batch of metric values in one transaction.
    InsertValues(Vec<V>),
    /// Insert an event.
    InsertEvent(Event),
    /// Remove metric values older than the retention in days.
    CleanupMetricValues(u32),
    /// Remove events older than the retention in days.
    CleanupEvents(u32),
}

/// The buffered values after the writer handles `cmd` with `items`
/// buffered: a value is appended, a flush or a shutdown empties the buffer.
pub open spec fn items_after<V>(items: Seq<V>, cmd: Command<V>) -> Seq<V> {
    match cmd {
        Command::InsertMetricValue(v) => items.push(v),
        Command::Flush | Command::Shutdown => Seq::empty(),
        _ => items,
    }
}

/// The values the writer writes when it handles `cmd` with `items`
/// buffered: all of them on a flush or a shutdown, none otherwise.
pub open spec fn values_written<V>(items: Seq<V>, cmd: Command<V>) -> Seq<V> {
    match cmd {
        Command::Flush | Command::Shutdown => items,
        _ => Seq::empty(),
    }
}

/// The values of the insert commands among `cmds`, in order.
pub open spec fn inserted<V>(cmds: Seq<Command<V>>) -> Seq<V>
    decreases cmds.len(),
{
    if cmds.len() == 0 {
        Seq::empty()
    } else {
        inserted(cmds.drop_last()) + match cmds.last() {
            Command::InsertMetricValue(v) => seq![v],
            _ => Seq::empty(),
        }
    }
}

/// The buffered values after handling `cmds` in order, from `items`.
pub open spec fn items_after_all<V>(items: Seq<V>, cmds: Seq<Command<V>>) -> Seq<V>
    decreases cmds.len(),
{
    if cmds.len() == 0 {
        items
    } else {
        items_after(items_after_all(items, cmds.drop_last()), cmds.last())
    }
}

/// The values written while handling `cmds` in order, from `items`.
pub open spec fn written_all<V>(items: Seq<V>, cmds: Seq<Command<V>>) -> Seq<V>
    decreases cmds.len(),
{
    if cmds.len() == 0 {
        Seq::empty()
    } else {
        written_all(items, cmds.drop_last()) + values_written(
            items_after_all(items, cmds.drop_last()),
            cmds.last(),
        )
    }
}

/// Batching loses, duplicates and reorders no value: whatever the
/// commands, the values written so far followed by those still buffered
/// are the values buffered at the start followed by those inserted.
pub proof fn lemma_batching_keeps_values<V>(items: Seq<V>, cmds: Seq<Command<V>>)
    ensures
        written_all(items, cmds) + items_after_all(items, cmds) == items + inserted(cmds),
    decreases cmds.len(),
{
    if cmds.len() == 0 {
        assert(Seq::<V>::empty() + items =~= items + Seq::<V>::empty());
    } else {
        let init = cmds.drop_last();
        lemma_batching_keeps_values(items, init);
        let before = items_after_all(items, init);
        match cmds.last() {
            Command::InsertMetricValue(v) => {
                let w = written_all(items, init);
                assert(written_all(items, cmds) =~= w);
                assert(items_after_all(items, cmds) == before.push(v));
                assert(inserted(cmds) == inserted(init) + seq![v]);
                assert(w + before.push(v) =~= (w + before).push(v));
                assert((items + inserted(init)).push(v) =~= items + (inserted(init) + seq![v]));
            },
            Command::Flush | Command::Shutdown => {
                assert(written_all(items, cmds) + items_after_all(items, cmds) =~= items + inserted(
                    cmds,
                ));
            },
            _ => {
                assert(written_all(items, cmds) + items_after_all(items, cmds) =~= items + inserted(
                    cmds,
                ));
            },
        }
    }
}

/// The values of the batch writes among `actions`, in order.
pub open spec fn batch_values<V>(actions: Seq<WriteAction<V>>) -> Seq<V>
    decreases actions.len(),
{
    if actions.len() == 0 {
        Seq::empty()
    } else {
        batch_values(actions.drop_last()) + match actions.last() {
            WriteAction::InsertValues(b) => b@,
            _ => Seq::empty(),
        }
    }
}

/// Empty the buffer into a batch write, if it holds anything.
pub fn flush_all<V>(buffer: &mut BatchBuffer<V>) -> (batch: Option<Vec<V>>)
    ensures
        final(buffer).items().len() == 0,
        final(buffer).size_threshold() == old(buffer).size_threshold(),
        final(buffer).time_threshold() == old(buffer).time_threshold(),
        old(buffer).items().len() == 0 ==> batch is None,
        old(buffer).items().len() > 0 ==> (batch matches Some(v) && v@ == old(buffer).items()),
{
    if buffer.is_empty() {
        None
    } else {
        Some(buffer.take())
    }
}

/// The writer's reaction to one command: the writes to perform, in order,
/// and whether to stop afterwards. Values go to the buffer; a flush or a
/// shutdown empties it into one batch.
pub fn handle_command<V>(buffer: &mut BatchBuffer<V>, cmd: Command<V>) -> (r: (
    Vec<WriteAction<V>>,
    bool,
))
    ensures
        final(buffer).size_threshold() == old(buffer).size_threshold(),
        final(buffer).time_threshold() == old(buffer).time_threshold(),
        r.1 <==> cmd is Shutdown,
        final(buffer).items() == items_after(old(buffer).items(), cmd),
        batch_values(r.0@) == values_written(old(buffer).items(), cmd),
        match cmd {
            Command::InsertMetricValue(v) => final(buffer).items() == old(buffer).items().push(v)
                && r.0@.len() == 0,
            Command::Flush | Command::Shutdown => final(buffer).items().len() == 0 && (if old(
                buffer,
            ).items().len() == 0 {
                r.0@.len() == 0
            } else {
                r.0@.len() == 1 && (r.0@[0] matches WriteAction::InsertValues(b) && b@ == old(
                    buffer,
                ).items())
            }),
            Command::UpsertMetricSeries(s) => final(buffer).items() == old(buffer).items()
                && r.0@.len() == 1 && r.0@[0] == WriteAction::<V>::UpsertSeries(s),
            Command::InsertEvent(e) => final(buffer).items() == old(buffer).items() && r.0@.len()
                == 1 && r.0@[0] == WriteAction::<V>::InsertEvent(e),
            Command::CleanupMetricValues { retention_days } => final(buffer).items() == old(
                buffer,
            ).items() && r.0@.len() == 1 && r.0@[0] == WriteAction::<V>::CleanupMetricValues(
                retention_days,
            ),
            Command::CleanupEvents { retention_days } => final(buffer).items() == old(
                buffer,
            ).items() && r.0@.len() == 1 && r.0@[0] == WriteAction::<V>::CleanupEvents(
                retention_days,
            ),
        },
{
    let mut actions: Vec<WriteAction<V>> = Vec::new();
    let stop = match cmd {
        Command::UpsertMetricSeries(s) => {
            actions.push(WriteAction::UpsertSeries(s));
            false
        },
        Command::InsertMetricValue(v) => {
            buffer.push(v);
            false
        },
        Command::InsertEvent(e) => {
            actions.push(WriteAction::InsertEvent(e));
            false
        },
        Command::CleanupMetricValues { retention_days } => {
            actions.push(WriteAction::CleanupMetricValues(retention_days));
            false
        },
        Command::CleanupEvents { retention_days } => {
            actions.push(WriteAction::CleanupEvents(retention_days));
            false
        },
        Command::Flush => {
            match flush_all(buffer) {
                Some(b) => actions.push(WriteAction::InsertValues(b)),
                None => {},
            }
            false
        },
        Command::Shutdown => {
            match flush_all(buffer) {
                Some(b) => actions.push(WriteAction::InsertValues(b)),
                None => {},
            }
            true
        },
    };
    proof {
        lemma_batch_values_short(actions@);
    }
    (actions, stop)
}

/// The batch values of no action, or of one action.
proof fn lemma_batch_values_short<V>(a: Seq<WriteAction<V>>)
    ensures
        a.len() == 0 ==> batch_values(a) == Seq::<V>::empty(),
        a.len() == 1 ==> batch_values(a) == match a[0] {
            WriteAction::InsertValues(b) => b@,
            _ => Seq::<V>::empty(),
        },
{
    if a.len() == 1 {
        assert(a.drop_last() =~= Seq::<WriteAction<V>>::empty());
        assert(batch_values(a.drop_last()) == Seq::<V>::empty());
        assert(batch_values(a) =~= Seq::<V>::empty() + match a[0] {
            WriteAction::InsertValues(b) => b@,
            _ => Seq::<V>::empty(),
        });
    }
}

/// The cut-off time of a cleanup: `retention_days` days before `now`, both
/// in microseconds.
pub fn cleanup_cutoff_micros(now_micros: i64, retention_days: u32) -> (c: i64)
    requires
        now_micros - retention_days * 86_400_000_000 >= i64::MIN,
    ensures
        c == now_micros - retention_days * 86_400_000_000,
{
    assert(retention_days * 86_400_000_000 <= 4_294_967_295 * 86_400_000_000) by (nonlinear_arith)
        requires
            retention_days <= 4_294_967_295,
    ;
    let span: i128 = (retention_days as i128) * 86_400_000_000;
    (now_micros as i128 - span) as i64
}

} // verus!
