use vstd::prelude::*;
use rand::Rng;
use rand::rngs::SmallRng;
use crate::methods::{method_slot, method_slot_of};
use crate::stats::Stats;

verus! {

#[verifier::external_type_specification]
#[verifier::external_body]
pub struct ExSmallRng(SmallRng);

/// How a request of a method is sent.
#[derive(Clone, Copy, Debug, PartialEq, Eq, Structural)]
pub enum Dispatch {
    /// GET, HEAD and DELETE: no body.
    Bodiless,
    /// POST and PUT: with a body.
    Upload,
    /// Any other method: a configuration error.
    Unsupported,
}

/// How a method is sent, by its exact (upper-case) name.
pub open spec fn dispatch_spec(m: Seq<char>) -> Dispatch {
    match method_slot(m) {
        Some(i) => if i == 2 || i == 3 { Dispatch::Upload } else { Dispatch::Bodiless },
        None => Dispatch::Unsupported,
    }
}

/// Decides how a request with `method` is sent.
pub fn dispatch_of(method: &str) -> (r: Dispatch)
    ensures
        r == dispatch_spec(method@),
{
    match method_slot_of(method) {
        Some(i) => if i == 2 || i == 3 { Dispatch::Upload } else { Dispatch::Bodiless },
        None => Dispatch::Unsupported,
    }
}

/// What a receive on the distribution channel gave a worker.
#[derive(Clone, Copy, Debug, PartialEq, Eq, Structural)]
pub enum Receipt {
    /// A work item arrived.
    Item,
    /// The generator closed the channel and the backlog is drained.
    Closed,
    /// The worker fell behind the buffer and this many items were dropped.
    Lagged(u64),
}

/// What a worker does after a receive.
#[derive(Clone, Copy, Debug, PartialEq, Eq, Structural)]
pub enum NextStep {
    /// Send the item's request.
    Process,
    /// Note the dropped items and receive again.
    Resume(u64),
    /// Leave the loop.
    Stop,
}

/// The worker's decision after a receive: only closure ends the loop; a lag
/// notice is reported and the worker carries on from the oldest item still
/// buffered.
pub fn next_step(r: Receipt) -> (s: NextStep)
    ensures
        s == match r {
            Receipt::Item => NextStep::Process,
            Receipt::Closed => NextStep::Stop,
            Receipt::Lagged(n) => NextStep::Resume(n),
        },
{
    match r {
        Receipt::Item => NextStep::Process,
        Receipt::Closed => NextStep::Stop,
        Receipt::Lagged(n) => NextStep::Resume(n),
    }
}

/// What became of one request.
#[derive(Clone, Copy, Debug, PartialEq, Eq, Structural)]
pub enum Outcome {
    /// A response came back with this status and this many body bytes.
    Response { status: u16, length: u64 },
    /// The request got no response (connect error, timeout, malformed reply).
    TransportError,
}

/// Records the outcome of one request of `worker_id` and its elapsed time:
/// a response counts as completed (and as failed and not-2xx outside
/// `[200, 300)`), a transport error counts as failed only, and the latency
/// sample is recorded either way.
pub fn record_outcome(stats: &mut Stats, method: &str, worker_id: usize, outcome: Outcome, elapsed_nanos: u64)
    requires
        old(stats).wf(),
        method_slot(method@) is Some ==> old(stats).sample_counts()[method_slot(method@)->0] < u64::MAX,
    ensures
        final(stats).wf(),
        final(stats).worker_count() == old(stats).worker_count(),
        match method_slot(method@) {
            Some(m) => {
                &&& final(stats).sample_counts() == old(stats).sample_counts().update(m, (old(stats).sample_counts()[m] + 1) as u64)
                &&& worker_id < old(stats).worker_count() ==> final(stats).counters() == old(stats).counters().update(m,
                    old(stats).counters()[m].update(worker_id as int, match outcome {
                        Outcome::Response { status, length } => old(stats).counters()[m][worker_id as int].after_response(status, length),
                        Outcome::TransportError => old(stats).counters()[m][worker_id as int].after_failure(),
                    }))
                &&& worker_id >= old(stats).worker_count() ==> final(stats).counters() == old(stats).counters()
            },
            None => final(stats).counters() == old(stats).counters()
                && final(stats).sample_counts() == old(stats).sample_counts()
                && final(stats).buckets() == old(stats).buckets()
                && final(stats).overflows() == old(stats).overflows(),
        },
{
    match outcome {
        Outcome::Response { status, length } => stats.update_stats(method, worker_id, status, length),
        Outcome::TransportError => stats.increment_failed(method, worker_id),
    }
    stats.add_sample(method, worker_id, elapsed_nanos);
}

/// Relies on `Rng::gen_range` over `min..=max`: a value in that range (it
/// panics only where the range is empty).
#[verifier::external_body]
fn draw_size(rng: &mut SmallRng, min: usize, max: usize) -> (r: usize)
    requires
        min <= max,
    ensures
        min <= r <= max,
{
    rng.gen_range(min..=max)
}

/// Relies on `Rng::fill` over a byte slice: overwrites the bytes in place.
#[verifier::external_body]
fn fill_random(rng: &mut SmallRng, buf: &mut Vec<u8>)
    ensures
        final(buf)@.len() == old(buf)@.len(),
{
    rng.fill(&mut buf[..])
}

/// A random request body whose length is drawn from `[min_size, max_size]`.
pub fn random_body(rng: &mut SmallRng, min_size: usize, max_size: usize) -> (r: Vec<u8>)
    requires
        min_size <= max_size,
    ensures
        min_size <= r@.len() <= max_size,
        min_size == max_size ==> r@.len() == min_size,
{
    let size = draw_size(rng, min_size, max_size);
    let mut data: Vec<u8> = vec![0u8; size];
    fill_random(rng, &mut data);
    data
}

} // verus!
