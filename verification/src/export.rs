//! Projection of the reassembled records into spreadsheet rows.
//!
//! One header row, then one row per record with the fixed five-column
//! projection. A record missing any projected field aborts the whole
//! export before any row is produced for the sink.

use vstd::prelude::*;
use vstd::string::StringExecFns;
use crate::record::{StatementRecord, TaggedRecord};

verus! {

/// Why an export was refused.
#[derive(Clone, Copy, PartialEq, Eq, Structural, Debug)]
pub enum ExportError {
    MissingField,
}

/// One spreadsheet row: the fixed five-column projection of a record.
#[derive(Debug, PartialEq, Eq)]
pub struct ExportRow {
    pub date: String,
    pub amount: String,
    pub balance: String,
    pub particular: String,
    pub txn_type: String,
}

/// Whether every field the export projects is present in the record.
pub open spec fn complete(r: StatementRecord) -> bool {
    &&& r.date is Some
    &&& r.amount is Some
    &&& r.balance is Some
    &&& r.particular is Some
    &&& r.txn_type is Some
}

/// The row a complete record projects to.
pub open spec fn row_of(r: StatementRecord) -> ExportRow {
    ExportRow {
        date: r.date->Some_0,
        amount: r.amount->Some_0,
        balance: r.balance->Some_0,
        particular: r.particular->Some_0,
        txn_type: r.txn_type->Some_0,
    }
}

/// Whether a row carries the fixed column titles.
pub open spec fn is_header_row(r: ExportRow) -> bool {
    &&& r.date@ == "date"@
    &&& r.amount@ == "amount"@
    &&& r.balance@ == "balance"@
    &&& r.particular@ == "particular"@
    &&& r.txn_type@ == "txn_type"@
}

/// The row of column titles that precedes the records.
pub fn header_row() -> (r: ExportRow)
    ensures
        is_header_row(r),
{
    ExportRow {
        date: String::from_str("date"),
        amount: String::from_str("amount"),
        balance: String::from_str("balance"),
        particular: String::from_str("particular"),
        txn_type: String::from_str("txn_type"),
    }
}

/// Projects the reassembled records into rows: the header row first, then
/// one row per record in the given order. Succeeds exactly when every
/// record carries all five projected fields; otherwise the whole export is
/// refused and no rows are produced.
pub fn export_rows(records: &Vec<TaggedRecord>) -> (r: Result<Vec<ExportRow>, ExportError>)
    ensures
        r is Ok <==> (forall|i: int|
            0 <= i < records@.len() ==> complete((#[trigger] records@[i]).record)),
        r is Err ==> r->Err_0 == ExportError::MissingField,
        r is Ok ==> {
            let rows = r->Ok_0@;
            &&& rows.len() == records@.len() + 1
            &&& is_header_row(rows[0])
            &&& forall|i: int|
                0 <= i < records@.len() ==> rows[i + 1] == row_of(
                    (#[trigger] records@[i]).record,
                )
        },
{
    let mut rows: Vec<ExportRow> = Vec::new();
    rows.push(header_row());
    let mut i: usize = 0;
    while i < records.len()
        invariant
            i <= records@.len(),
            rows@.len() == i + 1,
            is_header_row(rows@[0]),
            forall|j: int| 0 <= j < i ==> complete((#[trigger] records@[j]).record),
            forall|j: int|
                0 <= j < i ==> rows@[j + 1] == row_of((#[trigger] records@[j]).record),
        decreases records@.len() - i,
    {
        let rec = &records[i].record;
        match (&rec.date, &rec.amount, &rec.balance, &rec.particular, &rec.txn_type) {
            (Some(date), Some(amount), Some(balance), Some(particular), Some(txn_type)) => {
                rows.push(
                    ExportRow {
                        date: date.clone(),
                        amount: amount.clone(),
                        balance: balance.clone(),
                        particular: particular.clone(),
                        txn_type: txn_type.clone(),
                    },
                );
            },
            _ => {
                return Err(ExportError::MissingField);
            },
        }
        i = i + 1;
    }
    Ok(rows)
}

} // verus!
