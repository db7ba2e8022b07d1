//! The tabular export of the history: one CSV record per probe.
//!
//! The fields of a row are decimal numbers; the `csv` crate decides how a
//! row of fields is written out (separators, quoting, line ending).
use crate::digits::{decimal_digits, u128_to_decimal};
use crate::store::TrackedMessage;
use vstd::prelude::*;

verus! {

/// The bytes that the `csv` crate writes for one record with these fields.
pub uninterp spec fn csv_record(fields: Seq<Seq<u8>>) -> Seq<u8>;

/// The fields of a row as plain byte strings.
pub open spec fn field_views(row: Seq<Vec<u8>>) -> Seq<Seq<u8>> {
    row.map_values(|field: Vec<u8>| field@)
}

/// Writes one record with a fresh `csv::Writer` over an empty byte vector
/// (`Writer::from_writer`, `Writer::write_record`, `Writer::into_inner`) and
/// hands back what the writer produced.
///
/// The contract claims two things of the crate, neither of them proved here.
/// The call succeeds: the writer reports an error only where its sink refuses
/// a write or where a record has another number of fields than the first,
/// and here the sink is a byte vector, which takes every write, and the
/// record is the writer's first. And the bytes are a function of the fields
/// alone, which the contract names.
#[verifier::external_body]
pub(crate) fn csv_encode_record(fields: &Vec<Vec<u8>>) -> (out: Option<Vec<u8>>)
    ensures
        out is Some,
        out->0@ == csv_record(field_views(fields@)),
{
    let mut writer = csv::Writer::from_writer(Vec::new());
    writer.write_record(fields).ok()?;
    writer.into_inner().ok()
}

/// The column names: `idx`, `snt_time`, `rcv_time`.
pub open spec fn header_fields() -> Seq<Seq<u8>> {
    seq![
        seq![105u8, 100, 120],
        seq![115u8, 110, 116, 95, 116, 105, 109, 101],
        seq![114u8, 99, 118, 95, 116, 105, 109, 101],
    ]
}

/// The fields of a probe's row: index, send time and receive time in
/// decimal; the receive time is an empty field while the echo is missing.
pub open spec fn record_fields(msg: TrackedMessage) -> Seq<Seq<u8>> {
    seq![
        decimal_digits(msg.idx as nat),
        decimal_digits(msg.snt_time as nat),
        match msg.rcv_time {
            Some(rcv_time) => decimal_digits(rcv_time as nat),
            None => Seq::empty(),
        },
    ]
}

/// The rows of `records`, one after the other.
pub open spec fn rows_text(records: Seq<TrackedMessage>) -> Seq<u8>
    decreases records.len(),
{
    if records.len() == 0 {
        Seq::empty()
    } else {
        rows_text(records.drop_last()) + csv_record(record_fields(records.last()))
    }
}

/// What an export of `records` writes: the header row unless the text is
/// appended to earlier output, then the rows.
pub open spec fn export_text(records: Seq<TrackedMessage>, append: bool) -> Seq<u8> {
    if append {
        rows_text(records)
    } else {
        csv_record(header_fields()) + rows_text(records)
    }
}

/// The fields of the header row.
pub fn header_row() -> (row: Vec<Vec<u8>>)
    ensures
        field_views(row@) == header_fields(),
{
    let mut row: Vec<Vec<u8>> = Vec::new();
    row.push(vec![105u8, 100, 120]);
    row.push(vec![115u8, 110, 116, 95, 116, 105, 109, 101]);
    row.push(vec![114u8, 99, 118, 95, 116, 105, 109, 101]);
    assert(field_views(row@) =~= header_fields()) by {
        assert(row@[0]@ =~= header_fields()[0]);
        assert(row@[1]@ =~= header_fields()[1]);
        assert(row@[2]@ =~= header_fields()[2]);
    }
    row
}

/// The fields of a probe's row.
pub fn record_row(msg: &TrackedMessage) -> (row: Vec<Vec<u8>>)
    ensures
        field_views(row@) == record_fields(*msg),
{
    let mut row: Vec<Vec<u8>> = Vec::new();
    row.push(u128_to_decimal(msg.idx as u128));
    row.push(u128_to_decimal(msg.snt_time));
    match msg.rcv_time {
        Some(rcv_time) => row.push(u128_to_decimal(rcv_time)),
        None => row.push(Vec::new()),
    }
    assert(field_views(row@) =~= record_fields(*msg));
    row
}

} // verus!
