//! Settings of the storage layer, gathered before it is built.
use vstd::prelude::*;
use crate::storage::batch::{DEFAULT_BATCH_SIZE, DEFAULT_CHANNEL_CAPACITY, default_batch_flush_interval};
use crate::time::Duration;

verus! {

/// Builder for the storage layer's settings.
#[derive(Debug)]
pub struct StorageBuilder {
    db_url: String,
    channel_capacity: usize,
    batch_size: usize,
    batch_flush_interval: Duration,
}

impl StorageBuilder {
    /// The database URL.
    pub closed spec fn url(&self) -> Seq<char> {
        self.db_url@
    }

    /// The capacity of the writer's command channel.
    pub closed spec fn capacity(&self) -> usize {
        self.channel_capacity
    }

    /// The number of buffered values that triggers a flush.
    pub closed spec fn batch(&self) -> usize {
        self.batch_size
    }

    /// The age of the buffer that triggers a flush.
    pub closed spec fn flush_interval(&self) -> Duration {
        self.batch_flush_interval
    }

    /// Settings for the database at `db_url` (such as
    /// `sqlite:data/oculus.db?mode=rwc`), with a channel of 10 000 commands,
    /// batches of 500 values and a flush at least every second.
    pub fn new(db_url: &str) -> (b: StorageBuilder)
        ensures
            b.url() == db_url@,
            b.capacity() == DEFAULT_CHANNEL_CAPACITY,
            b.batch() == DEFAULT_BATCH_SIZE,
            b.flush_interval()@ == 1_000_000_000,
    {
        StorageBuilder {
            db_url: String::from_str(db_url),
            channel_capacity: DEFAULT_CHANNEL_CAPACITY,
            batch_size: DEFAULT_BATCH_SIZE,
            batch_flush_interval: default_batch_flush_interval(),
        }
    }

    /// Set the channel capacity for writer commands.
    pub fn channel_capacity(self, capacity: usize) -> (b: StorageBuilder)
        ensures
            b.capacity() == capacity,
            b.url() == self.url(),
            b.batch() == self.batch(),
            b.flush_interval() == self.flush_interval(),
    {
        StorageBuilder { channel_capacity: capacity, ..self }
    }

    /// Set the number of buffered metric values that triggers a flush.
    pub fn batch_size(self, size: usize) -> (b: StorageBuilder)
        ensures
            b.batch() == size,
            b.url() == self.url(),
            b.capacity() == self.capacity(),
            b.flush_interval() == self.flush_interval(),
    {
        StorageBuilder { batch_size: size, ..self }
    }

    /// Set the longest time buffered metric values wait before a flush.
    pub fn batch_flush_interval(self, interval: Duration) -> (b: StorageBuilder)
        ensures
            b.flush_interval() == interval,
            b.url() == self.url(),
            b.capacity() == self.capacity(),
            b.batch() == self.batch(),
    {
        StorageBuilder { batch_flush_interval: interval, ..self }
    }

    /// The database URL.
    pub fn db_url(&self) -> (s: &str)
        ensures
            s@ == self.url(),
    {
        self.db_url.as_str()
    }

    /// The configured channel capacity.
    pub fn configured_channel_capacity(&self) -> (n: usize)
        ensures
            n == self.capacity(),
    {
        self.channel_capacity
    }

    /// The configured batch size.
    pub fn configured_batch_size(&self) -> (n: usize)
        ensures
            n == self.batch(),
    {
        self.batch_size
    }

    /// The configured flush interval.
    pub fn configured_batch_flush_interval(&self) -> (d: Duration)
        ensures
            d == self.flush_interval(),
    {
        self.batch_flush_interval
    }
}

} // verus!
