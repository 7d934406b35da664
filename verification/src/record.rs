//! Statement records and their window tags.

use vstd::prelude::*;

verus! {

/// One raw statement entry as the source returns it. The core does not
/// validate field contents; it only checks presence when exporting.
#[derive(Debug, PartialEq, Eq)]
pub struct StatementRecord {
    pub date: Option<String>,
    pub amount: Option<String>,
    pub balance: Option<String>,
    pub particular: Option<String>,
    pub txn_type: Option<String>,
}

/// A record tagged with the `sequence_index` of the window it came from:
/// the sort key that restores chronological-by-window order.
#[derive(Debug, PartialEq, Eq)]
pub struct TaggedRecord {
    pub sequence_index: usize,
    pub record: StatementRecord,
}

/// An owned copy of an optional field.
pub fn clone_field(field: &Option<String>) -> (r: Option<String>)
    ensures
        r == *field,
{
    match field {
        Some(s) => Some(s.clone()),
        None => None,
    }
}

impl Clone for StatementRecord {
    fn clone(&self) -> (r: Self)
        ensures
            r == *self,
    {
        StatementRecord {
            date: clone_field(&self.date),
            amount: clone_field(&self.amount),
            balance: clone_field(&self.balance),
            particular: clone_field(&self.particular),
            txn_type: clone_field(&self.txn_type),
        }
    }
}

impl Clone for TaggedRecord {
    fn clone(&self) -> (r: Self)
        ensures
            r == *self,
    {
        TaggedRecord { sequence_index: self.sequence_index, record: self.record.clone() }
    }
}

} // verus!
