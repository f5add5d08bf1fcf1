//! Comma-separated output, produced by the `csv` crate.
//!
//! The crate's writer is used as it is. Verus does not look inside it: the
//! items of this file say what is taken on trust about it.

use vstd::prelude::*;
use vstd::string::*;
use crate::error::EngineError;

verus! {

/// The error type of the CSV writer. Nothing is known of its contents.
#[verifier::external_type_specification]
#[verifier::external_body]
pub struct ExCsvError(csv::Error);

/// The CSV writer of the `csv` crate, writing to memory. Its state is
/// opaque; what has been written to it is named by [`csv_written`].
#[verifier::external_body]
pub struct CsvWriter {
    inner: csv::Writer<Vec<u8>>,
}

/// The records that have been written to an in-memory writer so far, each a
/// sequence of fields.
pub uninterp spec fn csv_written(writer: CsvWriter) -> Seq<Seq<Seq<char>>>;

/// The bytes that a writer with the default configuration produces for a
/// sequence of records.
pub uninterp spec fn csv_bytes(records: Seq<Seq<Seq<char>>>) -> Seq<u8>;

/// `csv::Writer::from_writer` on an empty byte vector: a writer with the
/// default configuration to which nothing has been written.
#[verifier::external_body]
fn csv_writer() -> (writer: CsvWriter)
    ensures
        csv_written(writer) == Seq::<Seq<Seq<char>>>::empty(),
{
    CsvWriter { inner: csv::Writer::from_writer(Vec::new()) }
}

/// Whether every record has as many fields as the first one.
pub open spec fn same_width(records: Seq<Seq<Seq<char>>>) -> bool {
    forall|i: int| 0 <= i < records.len() ==> (#[trigger] records[i]).len() == records[0].len()
}

/// `csv::Writer::write_record` on a writer to memory with the default
/// configuration. The writer accepts the record if it is the first one, or
/// has as many fields as the first one, and refuses it otherwise; writing
/// to memory adds no other way to fail. An accepted record stands after
/// those written before. The writer goes in and, where the record was
/// accepted, comes out again, so that nothing is said or done with a writer
/// that has refused a record.
#[verifier::external_body]
fn csv_write_record(writer: CsvWriter, record: &Vec<String>) -> (outcome: Result<
    CsvWriter,
    csv::Error,
>)
    ensures
        outcome is Ok <==> (csv_written(writer).len() == 0 || record.deep_view().len()
            == csv_written(writer)[0].len()),
        outcome matches Ok(after) ==> csv_written(after) == csv_written(writer).push(
            record.deep_view(),
        ),
{
    let mut writer = writer;
    match writer.inner.write_record(record) {
        Ok(()) => Ok(writer),
        Err(refused) => Err(refused),
    }
}

/// `csv::Writer::into_inner` on a writer to memory: flushes the writer and
/// hands out the bytes of all records written to it. Flushing to memory
/// does not fail.
#[verifier::external_body]
fn csv_into_bytes(writer: CsvWriter) -> (bytes: Option<Vec<u8>>)
    ensures
        bytes is Some,
        bytes matches Some(b) ==> b@ == csv_bytes(csv_written(writer)),
{
    writer.inner.into_inner().ok()
}

/// Encodes records as comma-separated values, one line per record.
///
/// Encoding succeeds if and only if every record has as many fields as the
/// first one. Otherwise the error of the writer is returned as it is.
pub fn encode(records: &Vec<Vec<String>>) -> (encoded: Result<Vec<u8>, EngineError>)
    ensures
        encoded is Ok <==> same_width(records.deep_view()),
        encoded matches Ok(bytes) ==> bytes@ == csv_bytes(records.deep_view()),
        encoded matches Err(e) ==> e is CSV,
{
    let ghost all = records.deep_view();
    let mut writer = csv_writer();
    let mut i: usize = 0;
    while i < records.len()
        invariant
            i <= records.len(),
            all == records.deep_view(),
            csv_written(writer) == all.take(i as int),
            same_width(all.take(i as int)),
        decreases records.len() - i,
    {
        let ghost before = all.take(i as int);
        let ghost grown = all.take(i + 1);
        proof {
            assert(grown =~= before.push(records[i as int].deep_view()));
            assert(all[i as int] == records[i as int].deep_view());
            if i > 0 {
                assert(before[0] == all[0]);
            }
        }
        match csv_write_record(writer, &records[i]) {
            Ok(after) => {
                writer = after;
                proof {
                    assert forall|k: int| 0 <= k < grown.len() implies (#[trigger] grown[k]).len()
                        == grown[0].len() by {
                        if k < i {
                            assert(grown[k] == before[k]);
                        }
                    }
                }
            },
            Err(e) => {
                proof {
                    assert(all[i as int].len() != all[0].len());
                }
                return Err(EngineError::CSV(e));
            },
        }
        i = i + 1;
    }
    assert(all.take(records.len() as int) =~= all);
    match csv_into_bytes(writer) {
        Some(bytes) => Ok(bytes),
        None => Err(EngineError::other("the CSV writer could not be flushed")),
    }
}

} // verus!
