//! Timing of operations and counters of their durations, memory use and errors.
use std::time::{Duration, Instant};
use vstd::prelude::*;

use crate::text_map::TextMap;

verus! {

#[verifier::external_type_specification]
#[verifier::external_body]
pub struct ExInstant(std::time::Instant);

/// Relies on `std::time::Instant::now`: the current instant. Nothing is promised of it.
#[verifier::external_body]
fn instant_now() -> (r: Instant) {
    Instant::now()
}

/// Relies on `std::time::Instant::elapsed`: the time since `start`. Nothing is promised of it.
#[verifier::external_body]
fn elapsed_since(start: &Instant) -> (r: Duration) {
    start.elapsed()
}

/// Relies on `std::time::Duration::as_millis`: the whole milliseconds of the duration.
#[verifier::external_body]
fn whole_millis(d: &Duration) -> (r: u128) {
    d.as_millis()
}

/// Relies on `std::time::Duration::as_micros`: the whole microseconds of the duration.
#[verifier::external_body]
fn whole_micros(d: &Duration) -> (r: u128) {
    d.as_micros()
}

/// A stopwatch started when it is made.
pub struct PerformanceTimer {
    start_time: Instant,
}

impl PerformanceTimer {
    pub fn start() -> (r: PerformanceTimer) {
        PerformanceTimer { start_time: instant_now() }
    }

    /// The time since the start.
    pub fn elapsed(&self) -> (r: Duration) {
        elapsed_since(&self.start_time)
    }

    /// The whole milliseconds since the start, in the low 64 bits.
    pub fn elapsed_millis(&self) -> (r: u64) {
        let d = self.elapsed();
        whole_millis(&d) as u64
    }

    /// The whole microseconds since the start, in the low 64 bits.
    pub fn elapsed_micros(&self) -> (r: u64) {
        let d = self.elapsed();
        whole_micros(&d) as u64
    }
}

/// A copy of the values of `v`.
fn copy_values(v: &Vec<u64>) -> (r: Vec<u64>)
    ensures
        r@ == v@,
{
    let mut out: Vec<u64> = Vec::new();
    let mut i: usize = 0;
    while i < v.len()
        invariant
            i <= v@.len(),
            out@ == v@.take(i as int),
        decreases v@.len() - i,
    {
        out.push(v[i]);
        assert(out@ =~= v@.take(i + 1));
        i += 1;
    }
    assert(v@.take(i as int) =~= v@);
    out
}

/// The largest of `values`.
pub open spec fn max_of(values: Seq<u64>) -> u64
    decreases values.len(),
{
    if values.len() <= 1 {
        if values.len() == 1 {
            values[0]
        } else {
            0
        }
    } else {
        let m = max_of(values.drop_last());
        if values.last() > m {
            values.last()
        } else {
            m
        }
    }
}

/// Recorded durations of operations, by name, in milliseconds; memory use in bytes; and the
/// number of errors.
pub struct Metrics {
    pub operation_times: TextMap<Vec<u64>>,
    pub memory_usage: Vec<usize>,
    pub error_count: usize,
}

impl Metrics {
    pub fn new() -> (r: Metrics)
        ensures
            forall|k: Seq<char>| #[trigger] r.operation_times.spec_get(k) is None,
            r.memory_usage@.len() == 0,
            r.error_count == 0,
    {
        Metrics { operation_times: TextMap::new(), memory_usage: Vec::new(), error_count: 0 }
    }

    /// Appends `millis` to the durations of `name`.
    pub fn record_millis(&mut self, name: &str, millis: u64)
        ensures
            final(self).operation_times.spec_get(name@) matches Some(times) && times@ == match old(
                self,
            ).operation_times.spec_get(name@) {
                Some(before) => before@.push(millis),
                None => seq![millis],
            },
            forall|k: Seq<char>|
                k != name@ ==> #[trigger] final(self).operation_times.spec_get(k) == old(
                    self,
                ).operation_times.spec_get(k),
            final(self).memory_usage == old(self).memory_usage,
            final(self).error_count == old(self).error_count,
    {
        let mut times = match self.operation_times.get(name) {
            Some(before) => copy_values(before),
            None => Vec::new(),
        };
        times.push(millis);
        self.operation_times.insert(name.to_owned(), times);
    }

    /// Records that the operation `name` took `duration`, in whole milliseconds.
    pub fn record_operation(&mut self, name: &str, duration: Duration)
        ensures
            final(self).operation_times.spec_get(name@) is Some,
            forall|k: Seq<char>|
                k != name@ ==> #[trigger] final(self).operation_times.spec_get(k) == old(
                    self,
                ).operation_times.spec_get(k),
    {
        let millis = whole_millis(&duration) as u64;
        self.record_millis(name, millis);
    }

    /// Records that `operation` took `duration`, in whole milliseconds.
    pub fn record_operation_time(&mut self, operation: String, duration: Duration)
        ensures
            final(self).operation_times.spec_get(operation@) is Some,
            forall|k: Seq<char>|
                k != operation@ ==> #[trigger] final(self).operation_times.spec_get(k) == old(
                    self,
                ).operation_times.spec_get(k),
    {
        let millis = whole_millis(&duration) as u64;
        self.record_millis(operation.as_str(), millis);
    }

    /// Records a memory use of `bytes`.
    pub fn record_memory_usage(&mut self, bytes: usize)
        ensures
            final(self).memory_usage@ == old(self).memory_usage@.push(bytes),
            final(self).operation_times == old(self).operation_times,
            final(self).error_count == old(self).error_count,
    {
        self.memory_usage.push(bytes);
    }

    /// Counts one more error, saturating at `usize::MAX`.
    pub fn record_error<E: std::error::Error + ?Sized>(&mut self, _error: &E)
        ensures
            final(self).error_count == if old(self).error_count < usize::MAX {
                old(self).error_count + 1
            } else {
                old(self).error_count as int
            },
            final(self).operation_times == old(self).operation_times,
            final(self).memory_usage == old(self).memory_usage,
    {
        if self.error_count < usize::MAX {
            self.error_count = self.error_count + 1;
        }
    }

    /// The longest recorded duration of `operation`; `None` when none is recorded.
    pub fn get_max_time(&self, operation: &str) -> (r: Option<u64>)
        ensures
            match self.operation_times.spec_get(operation@) {
                Some(times) => if times@.len() == 0 {
                    r is None
                } else {
                    r == Some(max_of(times@))
                },
                None => r is None,
            },
    {
        match self.operation_times.get(operation) {
            None => None,
            Some(times) => {
                if times.len() == 0 {
                    return None;
                }
                let mut best = times[0];
                let mut i: usize = 1;
                assert(times@.take(1) =~= seq![times@[0]]);
                while i < times.len()
                    invariant
                        1 <= i <= times@.len(),
                        best == max_of(times@.take(i as int)),
                    decreases times@.len() - i,
                {
                    assert(times@.take(i + 1).drop_last() =~= times@.take(i as int));
                    if times[i] > best {
                        best = times[i];
                    }
                    i += 1;
                }
                assert(times@.take(i as int) =~= times@);
                Some(best)
            },
        }
    }

    /// Forgets everything recorded.
    pub fn clear(&mut self)
        ensures
            forall|k: Seq<char>| #[trigger] final(self).operation_times.spec_get(k) is None,
            final(self).memory_usage@.len() == 0,
            final(self).error_count == 0,
    {
        self.operation_times = TextMap::new();
        self.memory_usage = Vec::new();
        self.error_count = 0;
    }
}

} // verus!
