use queue_bench::bench::{bench_variant, run_workload, QueueVariant};
use queue_bench::queue::{ArrayQueue, ListQueue, Queue};
use queue_bench::stats::{max_sample, mean, median, sort_samples, summarize};

#[test]
fn sort_samples_orders_ascending() {
    let samples: Vec<u128> = vec![4, 1, 3, 1, 2];
    assert_eq!(sort_samples(&samples), vec![1, 1, 2, 3, 4]);
}

#[test]
fn median_even_length_lower_middle_tie_break() {
    // Even length: sorted is [1, 2, 3, 4]; index 4 / 2 = 2 holds 3,
    // not the 2.5 an averaging median would report.
    let samples: Vec<u128> = vec![1, 3, 2, 4];
    assert_eq!(median(&samples), Some(3));
}

#[test]
fn median_odd_length() {
    let samples: Vec<u128> = vec![5, 1, 9];
    assert_eq!(median(&samples), Some(5));
}

#[test]
fn median_of_nothing_is_none() {
    let samples: Vec<u128> = vec![];
    assert_eq!(median(&samples), None);
}

#[test]
fn median_equal_values() {
    let samples: Vec<u128> = vec![7, 7, 7, 7];
    assert_eq!(median(&samples), Some(7));
}

#[test]
fn mean_is_the_exact_ratio() {
    let samples: Vec<u128> = vec![2, 4, 6];
    assert_eq!(mean(&samples), Some((12, 3)));
}

#[test]
fn mean_of_nothing_is_none() {
    let samples: Vec<u128> = vec![];
    assert_eq!(mean(&samples), None);
}

#[test]
fn mean_overflowing_sum_is_none() {
    let samples: Vec<u128> = vec![u128::MAX, 1];
    assert_eq!(mean(&samples), None);
}

#[test]
fn max_sample_values() {
    let samples: Vec<u128> = vec![3, 9, 2];
    assert_eq!(max_sample(&samples), Some(9));
    let empty: Vec<u128> = vec![];
    assert_eq!(max_sample(&empty), None);
}

#[test]
fn summarize_reports_all_statistics() {
    let samples: Vec<u128> = vec![1, 3, 2, 4];
    let s = summarize(&samples, 42);
    assert_eq!(s.total_micros, 42);
    assert_eq!(s.max_micros, Some(4));
    assert_eq!(s.median_micros, Some(3));
    assert_eq!(s.mean_micros, Some((10, 4)));
}

#[test]
fn statistics_are_ordered_on_sample_values() {
    let samples: Vec<u128> = vec![8, 1, 5, 2, 9, 9, 3];
    let max = max_sample(&samples).unwrap();
    let med = median(&samples).unwrap();
    let min = *samples.iter().min().unwrap();
    assert!(min <= med);
    assert!(med <= max);
}

#[test]
fn array_queue_is_fifo() {
    let mut q = ArrayQueue::new();
    assert!(q.is_empty());
    q.enqueue(10);
    q.enqueue(20);
    q.enqueue(30);
    assert!(!q.is_empty());
    assert_eq!(q.dequeue(), Some(10));
    assert_eq!(q.dequeue(), Some(20));
    assert_eq!(q.dequeue(), Some(30));
    assert!(q.is_empty());
    assert_eq!(q.dequeue(), None);
}

#[test]
fn list_queue_is_fifo() {
    let mut q = ListQueue::new();
    assert!(q.is_empty());
    q.enqueue(10);
    q.enqueue(20);
    q.enqueue(30);
    assert!(!q.is_empty());
    assert_eq!(q.dequeue(), Some(10));
    assert_eq!(q.dequeue(), Some(20));
    assert_eq!(q.dequeue(), Some(30));
    assert!(q.is_empty());
    assert_eq!(q.dequeue(), None);
}

#[test]
fn workload_collects_two_samples_per_value() {
    let mut q = ArrayQueue::new();
    let run = run_workload(&mut q, 5);
    assert_eq!(run.op_times.len(), 10);
    assert!(q.is_empty());
}

#[test]
fn workload_round_trips_values_on_every_variant() {
    let expected: Vec<usize> = (0..16).collect();
    for variant in [QueueVariant::Array, QueueVariant::Linked, QueueVariant::ArrayReserved] {
        let (run, _) = bench_variant(variant, 16);
        assert_eq!(run.dequeued, expected);
        assert_eq!(run.op_times.len(), 32);
    }
}

#[test]
fn zero_workload_terminates_with_undefined_statistics() {
    for variant in [QueueVariant::Array, QueueVariant::Linked, QueueVariant::ArrayReserved] {
        let (run, summary) = bench_variant(variant, 0);
        assert_eq!(run.op_times.len(), 0);
        assert_eq!(run.dequeued.len(), 0);
        assert_eq!(summary.max_micros, None);
        assert_eq!(summary.median_micros, None);
        assert_eq!(summary.mean_micros, None);
    }
}

#[test]
fn thousand_items_complete_on_every_variant() {
    let expected: Vec<usize> = (0..1000).collect();
    for variant in [QueueVariant::Array, QueueVariant::Linked, QueueVariant::ArrayReserved] {
        let (run, summary) = bench_variant(variant, 1000);
        assert_eq!(run.op_times.len(), 2000);
        assert_eq!(run.dequeued, expected);
        assert!(summary.max_micros.is_some());
        assert!(summary.median_micros.is_some());
        let (sum, count) = summary.mean_micros.unwrap();
        assert_eq!(count, 2000);
        assert_eq!(sum, run.op_times.iter().sum::<u128>());
        assert!(summary.median_micros.unwrap() <= summary.max_micros.unwrap());
    }
}

#[test]
fn repeated_runs_have_identical_structure() {
    let (first_run, first_summary) = bench_variant(QueueVariant::Array, 50);
    let (second_run, second_summary) = bench_variant(QueueVariant::Array, 50);
    assert_eq!(first_run.op_times.len(), second_run.op_times.len());
    assert_eq!(first_run.dequeued, second_run.dequeued);
    assert_eq!(first_summary.max_micros.is_some(), second_summary.max_micros.is_some());
    assert_eq!(first_summary.median_micros.is_some(), second_summary.median_micros.is_some());
    assert_eq!(first_summary.mean_micros.is_some(), second_summary.mean_micros.is_some());
}
