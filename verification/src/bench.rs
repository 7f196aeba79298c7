//! The benchmark runner: drives the fixed workload — enqueue `num_values`
//! integers in ascending order, then dequeue until the queue is empty —
//! against one queue variant, timing every operation and the whole run.

use vstd::prelude::*;
use crate::clock;
use crate::queue::{ArrayQueue, ListQueue, Queue};
use crate::stats::{summarize, summary_of, Summary};

verus! {

/// `vals` is exactly the ascending sequence 0, 1, ..., n - 1.
pub open spec fn ascending(vals: Seq<usize>, n: int) -> bool {
    vals.len() == n && (forall|k: int| 0 <= k < n ==> vals[k] as int == k)
}

/// Everything one benchmark run collects: one timing sample per operation
/// (the `num_values` enqueues first, then the dequeues), the values the
/// queue handed back in the order they came out, the values that went in
/// (kept as ghost history), and the wall-clock time of the whole run,
/// measured independently of the per-operation samples.
pub struct BenchRun {
    pub op_times: Vec<u128>,
    pub dequeued: Vec<usize>,
    pub enqueued: Ghost<Seq<usize>>,
    pub total_micros: u128,
}

/// Drives the fixed workload against an initially empty queue: enqueues
/// 0, 1, ..., `num_values` - 1 in that order, then dequeues until the queue
/// reports empty, timing each operation and the run as a whole.
///
/// The contract records the collected-sample invariant (exactly two samples
/// per value, one for its enqueue and one for its dequeue) and the
/// round-trip identity: the values come out in exactly the order they went
/// in, so for a FIFO queue the workload is reproducible for every run with
/// the same `num_values`.
pub fn run_workload<Q: Queue>(queue: &mut Q, num_values: usize) -> (r: BenchRun)
    requires
        old(queue).contents() == Seq::<usize>::empty(),
    ensures
        r.op_times@.len() == 2 * num_values,
        ascending(r.enqueued@, num_values as int),
        r.dequeued@ == r.enqueued@,
        final(queue).contents() == Seq::<usize>::empty(),
{
    let mut op_times: Vec<u128> = Vec::new();
    let mut dequeued: Vec<usize> = Vec::new();
    let ghost mut enqueued = Seq::<usize>::empty();
    let start = clock::now();

    let mut i: usize = 0;
    while i < num_values
        invariant
            0 <= i <= num_values,
            enqueued == queue.contents(),
            queue.contents().len() == i,
            forall|k: int| 0 <= k < i ==> queue.contents()[k] as int == k,
            op_times@.len() == i,
        decreases num_values - i,
    {
        let op_start = clock::now();
        queue.enqueue(i);
        op_times.push(clock::since(op_start));
        proof {
            enqueued = enqueued.push(i);
        }
        i = i + 1;
    }

    let mut empty = queue.is_empty();
    while !empty
        invariant
            dequeued@.len() + queue.contents().len() == num_values,
            forall|k: int| 0 <= k < dequeued@.len() ==> dequeued@[k] as int == k,
            forall|k: int| 0 <= k < queue.contents().len() ==> queue.contents()[k] as int
                == dequeued@.len() + k,
            op_times@.len() == num_values + dequeued@.len(),
            empty == (queue.contents().len() == 0),
            ascending(enqueued, num_values as int),
        decreases queue.contents().len(),
    {
        let op_start = clock::now();
        let v = queue.dequeue();
        op_times.push(clock::since(op_start));
        let x = v.unwrap();
        dequeued.push(x);
        empty = queue.is_empty();
    }

    let total_micros = clock::since(start);
    proof {
        assert(dequeued@ =~= enqueued);
        assert(queue.contents() =~= Seq::<usize>::empty());
    }
    BenchRun { op_times, dequeued, enqueued: Ghost(enqueued), total_micros }
}

/// The three queue variants the harness measures, in report order.
pub enum QueueVariant {
    /// The growable-array deque with its default capacity.
    Array,
    /// The doubly linked list.
    Linked,
    /// The growable-array deque pre-sized for the whole workload.
    ArrayReserved,
}

/// Runs the fixed workload on a freshly constructed queue of the chosen
/// variant and reduces the collected samples to summary statistics.
pub fn bench_variant(variant: QueueVariant, num_values: usize) -> (r: (BenchRun, Summary))
    ensures
        r.0.op_times@.len() == 2 * num_values,
        ascending(r.0.enqueued@, num_values as int),
        r.0.dequeued@ == r.0.enqueued@,
        r.1 == summary_of(r.0.op_times@, r.0.total_micros),
{
    let run = match variant {
        QueueVariant::Array => {
            let mut q = ArrayQueue::new();
            run_workload(&mut q, num_values)
        },
        QueueVariant::Linked => {
            let mut q = ListQueue::new();
            run_workload(&mut q, num_values)
        },
        QueueVariant::ArrayReserved => {
            let mut q = ArrayQueue::with_capacity(num_values);
            run_workload(&mut q, num_values)
        },
    };
    let summary = summarize(&run.op_times, run.total_micros);
    (run, summary)
}

/// Two runs of the workload with the same item count agree on everything
/// but the measured durations: they collect the same number of samples and
/// dequeue the same values in the same order.
pub proof fn lemma_runs_agree(a: BenchRun, b: BenchRun, n: usize)
    requires
        a.op_times@.len() == 2 * n,
        ascending(a.enqueued@, n as int),
        a.dequeued@ == a.enqueued@,
        b.op_times@.len() == 2 * n,
        ascending(b.enqueued@, n as int),
        b.dequeued@ == b.enqueued@,
    ensures
        a.op_times@.len() == b.op_times@.len(),
        a.dequeued@ == b.dequeued@,
{
    assert(a.dequeued@ =~= b.dequeued@);
}

} // verus!
