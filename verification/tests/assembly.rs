use windowed_statements::batch::plan_batches;
use windowed_statements::collect::{assemble, collect_results, FetchOutcome, WindowResult};
use windowed_statements::date::Date;
use windowed_statements::reassemble::reassemble;
use windowed_statements::record::{StatementRecord, TaggedRecord};
use windowed_statements::window::{partition_windows, DateWindow, WindowError};

fn record(tag: &str) -> StatementRecord {
    StatementRecord {
        date: Some(format!("d-{tag}")),
        amount: Some(format!("a-{tag}")),
        balance: Some(format!("b-{tag}")),
        particular: Some(format!("p-{tag}")),
        txn_type: Some(format!("t-{tag}")),
    }
}

fn tagged(sequence_index: usize, tag: &str) -> TaggedRecord {
    TaggedRecord {
        sequence_index,
        record: record(tag),
    }
}

#[test]
fn reassemble_orders_by_window() {
    let input = vec![tagged(2, "old"), tagged(0, "new"), tagged(1, "mid")];
    let out = reassemble(input);
    let indices: Vec<usize> = out.iter().map(|t| t.sequence_index).collect();
    assert_eq!(indices, vec![0, 1, 2]);
    assert_eq!(out[0].record, record("new"));
    assert_eq!(out[1].record, record("mid"));
    assert_eq!(out[2].record, record("old"));
}

#[test]
fn reassemble_is_stable_within_a_window() {
    let input = vec![
        tagged(1, "first-of-one"),
        tagged(0, "first-of-zero"),
        tagged(1, "second-of-one"),
        tagged(0, "second-of-zero"),
        tagged(1, "third-of-one"),
    ];
    let out = reassemble(input);
    let tags: Vec<&str> = out
        .iter()
        .map(|t| t.record.date.as_deref().unwrap())
        .collect();
    assert_eq!(
        tags,
        vec![
            "d-first-of-zero",
            "d-second-of-zero",
            "d-first-of-one",
            "d-second-of-one",
            "d-third-of-one",
        ]
    );
}

#[test]
fn reassemble_is_idempotent() {
    let input = vec![
        tagged(3, "a"),
        tagged(1, "b"),
        tagged(3, "c"),
        tagged(0, "d"),
        tagged(1, "e"),
    ];
    let once = reassemble(input);
    let copy: Vec<TaggedRecord> = once
        .iter()
        .map(|t| TaggedRecord {
            sequence_index: t.sequence_index,
            record: t.record.clone(),
        })
        .collect();
    let twice = reassemble(copy);
    assert_eq!(once, twice);
}

#[test]
fn collect_tags_records_in_result_order() {
    let results = vec![
        WindowResult {
            sequence_index: 1,
            outcome: FetchOutcome::Fetched(vec![record("r1a"), record("r1b")]),
        },
        WindowResult {
            sequence_index: 0,
            outcome: FetchOutcome::Failed,
        },
        WindowResult {
            sequence_index: 2,
            outcome: FetchOutcome::Fetched(vec![record("r2a")]),
        },
    ];
    let out = collect_results(&results);
    assert_eq!(out.len(), 3);
    assert_eq!(out[0], tagged(1, "r1a"));
    assert_eq!(out[1], tagged(1, "r1b"));
    assert_eq!(out[2], tagged(2, "r2a"));
}

#[test]
fn one_failed_window_is_isolated() {
    let results = vec![
        WindowResult {
            sequence_index: 2,
            outcome: FetchOutcome::Fetched(vec![record("oldest")]),
        },
        WindowResult {
            sequence_index: 1,
            outcome: FetchOutcome::Failed,
        },
        WindowResult {
            sequence_index: 0,
            outcome: FetchOutcome::Fetched(vec![record("newest")]),
        },
    ];
    let out = assemble(&results);
    assert_eq!(out.len(), 2);
    assert_eq!(out[0], tagged(0, "newest"));
    assert_eq!(out[1], tagged(2, "oldest"));
    assert!(out.iter().all(|t| t.sequence_index != 1));
}

#[test]
fn batches_are_bounded_and_ordered() {
    let now = Date { day: 1000 };
    let windows = partition_windows(now, 200, 29).expect("valid configuration");
    assert_eq!(windows.len(), 7);
    let batches = plan_batches(&windows, 3).expect("positive batch size");
    assert_eq!(batches.len(), 3);
    let sizes: Vec<usize> = batches.iter().map(|b| b.len()).collect();
    assert_eq!(sizes, vec![3, 3, 1]);
    let mut flattened: Vec<DateWindow> = Vec::new();
    for b in &batches {
        assert!(b.len() <= 3);
        flattened.extend(b.iter().copied());
    }
    assert_eq!(flattened, windows);
}

#[test]
fn batching_edge_cases() {
    let now = Date { day: 1000 };
    let windows = partition_windows(now, 87, 29).expect("valid configuration");
    assert_eq!(
        plan_batches(&windows, 0).unwrap_err(),
        WindowError::InvalidArgument
    );
    let empty: Vec<DateWindow> = Vec::new();
    assert!(plan_batches(&empty, 3).expect("positive batch size").is_empty());
    let single = plan_batches(&windows, 5).expect("positive batch size");
    assert_eq!(single.len(), 1);
    assert_eq!(single[0], windows);
}
