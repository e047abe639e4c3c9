//! Rows of text fields to and from CSV bytes. This is the boundary to the
//! `csv` crate: the two functions that call it are believed, not proved, and
//! everything else in the library is proved on top of what is stated here.

use vstd::prelude::*;
use vstd::utf8::encode_utf8;

verus! {

/// The error type of the `csv` crate, carried through unopened.
#[verifier::external_type_specification]
#[verifier::external_body]
pub struct ExCsvError(csv::Error);

/// The rows that the `csv` reader finds in `data`, each row a sequence of
/// fields; `None` where it reports an error on any row.
pub uninterp spec fn csv_rows(data: Seq<u8>) -> Option<Seq<Seq<Seq<char>>>>;

/// The bytes that force a field into quotes: comma, double quote, line feed
/// and carriage return.
pub open spec fn is_special(b: u8) -> bool {
    b == 0x2C || b == 0x22 || b == 0x0A || b == 0x0D
}

/// The field holds a byte that forces it into quotes.
pub open spec fn needs_quotes(field: Seq<u8>) -> bool {
    exists|i: int| 0 <= i < field.len() && is_special(#[trigger] field[i])
}

/// The field with every double quote written twice.
pub open spec fn doubled_quotes(field: Seq<u8>) -> Seq<u8>
    decreases field.len(),
{
    if field.len() == 0 {
        field
    } else if field.last() == 0x22 {
        doubled_quotes(field.drop_last()) + seq![0x22u8, 0x22u8]
    } else {
        doubled_quotes(field.drop_last()).push(field.last())
    }
}

/// One field as it is written: as it is, or between double quotes with its
/// own double quotes doubled.
pub open spec fn written_field(field: Seq<u8>) -> Seq<u8> {
    if needs_quotes(field) {
        seq![0x22u8] + doubled_quotes(field) + seq![0x22u8]
    } else {
        field
    }
}

/// The written fields of a row with a comma between each two.
pub open spec fn joined_fields(fields: Seq<Seq<u8>>) -> Seq<u8>
    decreases fields.len(),
{
    if fields.len() == 0 {
        Seq::empty()
    } else if fields.len() == 1 {
        written_field(fields[0])
    } else {
        joined_fields(fields.drop_last()) + seq![0x2Cu8] + written_field(fields.last())
    }
}

/// One row as it is written: its fields joined, then a line feed. A row that
/// would come out empty is written as a pair of double quotes.
pub open spec fn written_line(fields: Seq<Seq<u8>>) -> Seq<u8> {
    let body = joined_fields(fields);
    if body.len() == 0 {
        seq![0x22u8, 0x22u8, 0x0Au8]
    } else {
        body.push(0x0Au8)
    }
}

/// The fields of a row as UTF-8 bytes.
pub open spec fn utf8_fields(row: Seq<Seq<char>>) -> Seq<Seq<u8>> {
    row.map_values(|field: Seq<char>| encode_utf8(field))
}

/// Reads all of `data` as headerless CSV: `csv::ReaderBuilder::new`, then
/// `has_headers(false)` and `from_reader`, every other setting at its
/// default; then `csv::Reader::records` to the end or to the first error,
/// each `StringRecord` turned into a row of owned strings.
///
/// Believed, not proved: the outcome depends on the bytes alone, and is named
/// `csv_rows`; on no bytes at all the reader yields no record and no error.
#[verifier::external_body]
pub(crate) fn read_rows(data: &[u8]) -> (res: Result<Vec<Vec<String>>, csv::Error>)
    ensures
        match res {
            Ok(rows) => csv_rows(data@) == Some(rows.deep_view()),
            Err(_) => csv_rows(data@) is None,
        },
        data@.len() == 0 ==> res is Ok && res->Ok_0@.len() == 0,
{
    let mut reader = csv::ReaderBuilder::new().has_headers(false).from_reader(data);
    let mut rows: Vec<Vec<String>> = Vec::new();
    for record in reader.records() {
        rows.push(record?.iter().map(String::from).collect());
    }
    Ok(rows)
}

/// Writes one row as CSV into an empty byte vector: `csv::WriterBuilder::new`,
/// then `has_headers(false)` and `from_writer`, every other setting at its
/// default; then `csv::Writer::write_record` with `fields`, and
/// `csv::Writer::into_inner` for the vector.
///
/// Believed, not proved, from what the crate documents of its defaults (the
/// delimiter is a comma, the terminator a line feed, quotes are put only
/// where necessary and doubled inside) and from `csv_core`'s writer, which
/// counts the carriage return among the bytes that need quotes: the fields
/// come out in order with a comma between each two and a line feed at the
/// end; a field stands between double quotes, with the double quotes inside
/// it doubled, exactly when it holds a comma, a double quote, a line feed or
/// a carriage return; a row that would come out without any byte is written
/// as a pair of double quotes; and writing one row into a vector does not
/// fail.
#[verifier::external_body]
pub(crate) fn write_row(fields: &Vec<String>) -> (res: Result<Vec<u8>, csv::Error>)
    ensures
        res is Ok,
        res->Ok_0@ == written_line(utf8_fields(fields.deep_view())),
{
    let mut writer = csv::WriterBuilder::new().has_headers(false).from_writer(Vec::new());
    writer.write_record(fields)?;
    writer.into_inner().map_err(|e| csv::Error::from(e.into_error()))
}

} // verus!
