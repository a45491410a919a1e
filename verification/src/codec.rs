//! Comma-separated text, read and written by the `csv` crate.
//!
//! What the crate makes of a text, and what text it makes of a row, is not
//! stated here: both are given a name, and the rest of the library is proved
//! against the names.

use vstd::prelude::*;
use crate::error::StoreError;

verus! {

/// `csv::Error`, the error of the `csv` crate's reader and writer. It is
/// carried through unopened: nothing is read from it.
#[verifier::external_type_specification]
#[verifier::external_body]
pub struct ExCsvError(csv::Error);

/// The rows that the `csv` crate reads from a text, each row a sequence of
/// fields with the white space around every field cut off; `None` where the
/// crate refuses the text.
pub uninterp spec fn csv_rows(data: Seq<u8>) -> Option<Seq<Seq<Seq<char>>>>;

/// The line that the `csv` crate writes for one row of fields, quoted where
/// a field needs it and ended by a line feed; `None` where the crate refuses
/// the row.
pub uninterp spec fn csv_line(fields: Seq<Seq<char>>) -> Option<Seq<u8>>;

/// Reads every row of a text with the `records` of a `csv::Reader` that
/// treats no row as a header, lets rows differ in length and trims every
/// field; the first row that the reader refuses is the answer. Nothing is
/// claimed of the outcome but that it depends on the text alone.
#[verifier::external_body]
fn read_rows(data: &[u8]) -> (r: Result<Vec<Vec<String>>, csv::Error>)
    ensures
        r is Ok <==> csv_rows(data@) is Some,
        r matches Ok(rows) ==> csv_rows(data@) == Some(rows.deep_view()),
{
    let mut reader = csv::ReaderBuilder::new()
        .has_headers(false)
        .flexible(true)
        .trim(csv::Trim::All)
        .from_reader(data);
    reader.records().map(|record| record.map(|r| r.iter().map(String::from).collect())).collect()
}

/// Writes one row with `write_record` of a `csv::Writer` into memory and
/// hands back the bytes. Nothing is claimed of the outcome but that it
/// depends on the fields alone.
#[verifier::external_body]
fn write_row(fields: &Vec<String>) -> (r: Result<Vec<u8>, csv::Error>)
    ensures
        r is Ok <==> csv_line(fields.deep_view()) is Some,
        r matches Ok(line) ==> csv_line(fields.deep_view()) == Some(line@),
{
    let mut writer = csv::WriterBuilder::new().from_writer(Vec::new());
    writer.write_record(fields)?;
    writer.into_inner().map_err(|e| csv::Error::from(e.into_error()))
}

/// The text of some rows: their lines one after another; `None` where one of
/// the rows cannot be written.
pub open spec fn rows_text(rows: Seq<Seq<Seq<char>>>) -> Option<Seq<u8>>
    decreases rows.len(),
{
    if rows.len() == 0 {
        Some(Seq::empty())
    } else {
        match (rows_text(rows.drop_last()), csv_line(rows.last())) {
            (Some(text), Some(line)) => Some(text + line),
            _ => None,
        }
    }
}

/// The text of rows is the text of the first ones followed by the text of
/// the rest: what is appended to a table reads as if the whole had been
/// written at once.
pub proof fn lemma_rows_text_concat(a: Seq<Seq<Seq<char>>>, b: Seq<Seq<Seq<char>>>)
    ensures
        rows_text(a + b) == match (rows_text(a), rows_text(b)) {
            (Some(x), Some(y)) => Some(x + y),
            _ => None,
        },
    decreases b.len(),
{
    if b.len() == 0 {
        assert(a + b =~= a);
        if rows_text(a) is Some {
            assert(rows_text(a).unwrap() + Seq::<u8>::empty() =~= rows_text(a).unwrap());
        }
    } else {
        lemma_rows_text_concat(a, b.drop_last());
        assert((a + b).drop_last() =~= a + b.drop_last());
        assert((a + b).last() == b.last());
        match (rows_text(a), rows_text(b.drop_last()), csv_line(b.last())) {
            (Some(x), Some(y), Some(z)) => {
                assert((x + y) + z =~= x + (y + z));
            },
            _ => {},
        }
    }
}

/// Reads a text as rows of trimmed fields. A text that cannot be read as
/// comma-separated rows gives `StoreUnreadable`.
pub fn decode_rows(data: &[u8]) -> (r: Result<Vec<Vec<String>>, StoreError>)
    ensures
        match csv_rows(data@) {
            Some(rows) => r is Ok && r.unwrap().deep_view() == rows,
            None => r == Err::<Vec<Vec<String>>, StoreError>(StoreError::StoreUnreadable),
        },
{
    match read_rows(data) {
        Ok(rows) => Ok(rows),
        Err(_) => Err(StoreError::StoreUnreadable),
    }
}

/// Writes rows as text, one line for each row. A row that cannot be written
/// gives `StoreUnwritable`.
pub fn encode_rows(rows: &Vec<Vec<String>>) -> (r: Result<Vec<u8>, StoreError>)
    ensures
        match rows_text(rows.deep_view()) {
            Some(text) => r is Ok && r.unwrap()@ == text,
            None => r == Err::<Vec<u8>, StoreError>(StoreError::StoreUnwritable),
        },
{
    let ghost table = rows.deep_view();
    let mut text: Vec<u8> = Vec::new();
    let mut i: usize = 0;
    assert(table.take(0) =~= Seq::<Seq<Seq<char>>>::empty());
    while i < rows.len()
        invariant
            i <= rows.len(),
            table == rows.deep_view(),
            rows_text(table.take(i as int)) == Some(text@),
        decreases rows.len() - i,
    {
        proof {
            assert(table.take(i + 1).drop_last() =~= table.take(i as int));
            assert(table.take(i + 1).last() == rows[i as int].deep_view());
            lemma_text_needs_prefix(table, i + 1);
        }
        match write_row(&rows[i]) {
            Ok(mut line) => {
                let ghost before = text@;
                let ghost added = line@;
                text.append(&mut line);
                assert(text@ =~= before + added);
            },
            Err(_) => {
                return Err(StoreError::StoreUnwritable);
            },
        }
        i += 1;
    }
    assert(table.take(i as int) =~= table);
    Ok(text)
}

/// Rows can be written only if the first `k` of them can.
proof fn lemma_text_needs_prefix(rows: Seq<Seq<Seq<char>>>, k: int)
    requires
        0 <= k <= rows.len(),
    ensures
        rows_text(rows.take(k)) is None ==> rows_text(rows) is None,
    decreases rows.len() - k,
{
    if k < rows.len() {
        lemma_text_needs_prefix(rows.drop_last(), k);
        assert(rows.drop_last().take(k) =~= rows.take(k));
    } else {
        assert(rows.take(k) =~= rows);
    }
}

} // verus!
