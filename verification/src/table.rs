//! The objective's standard output, read as a delimited table with a header.

use crate::text::{copy_list, texts};
use vstd::prelude::*;

verus! {

/// The error type of the `csv` crate: why a record could not be read.
#[verifier::external_type_specification]
#[verifier::external_body]
pub struct ExCsvError(csv::Error);

/// The fields of the header that a reader of the `csv` crate, in its default
/// configuration, finds in the given bytes; `None` where it reports an error.
pub uninterp spec fn header_fields(bytes: Seq<u8>) -> Option<Seq<Seq<char>>>;

/// What a reader of the `csv` crate, in its default configuration, yields for
/// the given bytes after the header, in order: the fields of each record, or
/// `None` where it reports an error for the record.
pub uninterp spec fn record_fields(bytes: Seq<u8>) -> Seq<Option<Seq<Seq<char>>>>;

/// A table as it was read: the header and what was found for each record
/// after it. `None` stands for what could not be read.
#[derive(Debug)]
pub struct Table {
    /// The fields of the header.
    pub header: Option<Vec<String>>,
    /// The fields of each record, in order.
    pub records: Vec<Option<Vec<String>>>,
}

/// The texts of a header, if it was read.
pub open spec fn header_texts(header: Option<Vec<String>>) -> Option<Seq<Seq<char>>> {
    match header {
        Some(fields) => Some(texts(fields@)),
        None => None,
    }
}

/// The texts of each record that was read.
pub open spec fn record_texts(records: Seq<Option<Vec<String>>>) -> Seq<Option<Seq<Seq<char>>>> {
    Seq::new(
        records.len(),
        |i: int|
            match records[i] {
                Some(fields) => Some(texts(fields@)),
                None => None,
            },
    )
}

/// Calls `csv::Reader::from_reader` on the bytes and `Reader::headers` on the
/// reader. The contract claims only that the outcome, with each field copied
/// out as a string, is the one named `header_fields` for these bytes.
#[verifier::external_body]
fn read_header(bytes: &[u8]) -> (r: Result<Vec<String>, csv::Error>)
    ensures
        match r {
            Ok(fields) => header_fields(bytes@) == Some(texts(fields@)),
            Err(_) => header_fields(bytes@) is None,
        },
{
    let mut reader = csv::Reader::from_reader(bytes);
    let header = reader.headers()?;
    Ok(header.iter().map(|field| field.to_string()).collect())
}

/// Calls `csv::Reader::from_reader` on the bytes and walks the iterator of
/// `Reader::into_records` to its end. The contract claims only that the items,
/// with each field copied out as a string, are the ones named `record_fields`
/// for these bytes, in the iterator's order.
#[verifier::external_body]
fn read_records(bytes: &[u8]) -> (r: Vec<Result<Vec<String>, csv::Error>>)
    ensures
        r@.len() == record_fields(bytes@).len(),
        forall|i: int|
            0 <= i < r@.len() ==> match #[trigger] r@[i] {
                Ok(fields) => record_fields(bytes@)[i] == Some(texts(fields@)),
                Err(_) => record_fields(bytes@)[i] is None,
            },
{
    csv::Reader::from_reader(bytes).into_records().map(
        |row| row.map(|record| record.iter().map(|field| field.to_string()).collect()),
    ).collect()
}

/// Reads bytes as a delimited table with a header.
pub fn read_table(bytes: &[u8]) -> (t: Table)
    ensures
        header_texts(t.header) == header_fields(bytes@),
        record_texts(t.records@) == record_fields(bytes@),
{
    let header = match read_header(bytes) {
        Ok(fields) => Some(fields),
        Err(_) => None,
    };
    let rows = read_records(bytes);
    let mut records: Vec<Option<Vec<String>>> = Vec::new();
    let mut i: usize = 0;
    while i < rows.len()
        invariant
            i <= rows@.len(),
            records@.len() == i,
            forall|j: int|
                0 <= j < i ==> match #[trigger] rows@[j] {
                    Ok(fields) => records@[j] matches Some(copy) && texts(copy@) == texts(fields@),
                    Err(_) => records@[j] is None,
                },
        decreases rows@.len() - i,
    {
        match &rows[i] {
            Ok(fields) => {
                records.push(Some(copy_list(fields)));
            },
            Err(_) => {
                records.push(None);
            },
        }
        i = i + 1;
    }
    assert forall|j: int| 0 <= j < records@.len() implies record_texts(records@)[j]
        == record_fields(bytes@)[j] by {
        let row = rows@[j];
    }
    Table { header, records }
}

} // verus!
