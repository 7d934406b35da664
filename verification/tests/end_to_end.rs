use windowed_statements::batch::plan_batches;
use windowed_statements::collect::{assemble, FetchOutcome, WindowResult};
use windowed_statements::date::{date_from_ymd, Date};
use windowed_statements::export::export_rows;
use windowed_statements::record::{StatementRecord, TaggedRecord};
use windowed_statements::window::{partition_windows, window_date_strings};

/// A mock source: returns one record per window, tagged with the window's
/// own date range.
fn mock_fetch(from: &str, to: &str) -> StatementRecord {
    StatementRecord {
        date: Some(format!("{from}..{to}")),
        amount: Some("1.00".to_string()),
        balance: Some("1.00".to_string()),
        particular: Some("mock".to_string()),
        txn_type: Some("credit".to_string()),
    }
}

#[test]
fn full_run_over_three_windows() {
    let now = Date {
        day: date_from_ymd(2024, 3, 30).expect("valid date").day,
    };
    let windows = partition_windows(now, 87, 29).expect("valid configuration");
    assert_eq!(windows.len(), 3);
    let batches = plan_batches(&windows, 3).expect("positive batch size");
    assert_eq!(batches.len(), 1);
    assert_eq!(batches[0].len(), 3);

    let mut results: Vec<WindowResult> = Vec::new();
    // Completion order is not arrival order: the oldest window answers first.
    for w in batches[0].iter().rev() {
        let (from_s, to_s) = window_date_strings(w).expect("in calendar range");
        results.push(WindowResult {
            sequence_index: w.sequence_index,
            outcome: FetchOutcome::Fetched(vec![mock_fetch(&from_s, &to_s)]),
        });
    }

    let ordered: Vec<TaggedRecord> = assemble(&results);
    let rows = export_rows(&ordered).expect("all fields present");
    assert_eq!(rows.len(), 4);
    assert_eq!(rows[0].date, "date");
    assert_eq!(rows[1].date, "2024-03-01..2024-03-30");
    assert_eq!(rows[2].date, "2024-02-01..2024-03-01");
    assert_eq!(rows[3].date, "2024-01-03..2024-02-01");
}
