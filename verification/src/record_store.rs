//! Records as delimited text.
//!
//! One record per line, seven fields in storage order, separated by `;`,
//! no header row. A field that holds `;`, `"`, a carriage return or a line
//! feed is written between double quotes, with each `"` inside it doubled.
//! Writing and reading are done by the `csv` crate. Its reader drops a byte
//! order mark that opens the text, so a first field that begins with one is
//! not read back as it was written.

use crate::entry::{
    entry_views, lemma_fields_round_trip, texts, Entry, EntryView, FIELD_COUNT,
};
use crate::error::RecordFormatError;
use vstd::prelude::*;

verus! {

/// The characters that force a field between quotes.
pub open spec fn is_special(c: char) -> bool {
    c == ';' || c == '"' || c == '\r' || c == '\n'
}

/// The field holds a character that forces it between quotes.
pub open spec fn needs_quotes(field: Seq<char>) -> bool {
    exists|i: int| 0 <= i < field.len() && is_special(#[trigger] field[i])
}

/// `field` with every `"` written twice.
pub open spec fn doubled_quotes(field: Seq<char>) -> Seq<char>
    decreases field.len(),
{
    if field.len() == 0 {
        Seq::empty()
    } else if field.last() == '"' {
        doubled_quotes(field.drop_last()).push('"').push('"')
    } else {
        doubled_quotes(field.drop_last()).push(field.last())
    }
}

/// A field as it stands in the file.
pub open spec fn written_field(field: Seq<char>) -> Seq<char> {
    if needs_quotes(field) {
        seq!['"'] + doubled_quotes(field) + seq!['"']
    } else {
        field
    }
}

/// A record as it stands in the file: its seven fields and a line feed.
pub open spec fn written_record(entry: EntryView) -> Seq<char> {
    written_field(entry.id) + seq![';'] + written_field(entry.title) + seq![';'] + written_field(
        entry.author,
    ) + seq![';'] + written_field(entry.publisher) + seq![';'] + written_field(entry.epub_link)
        + seq![';'] + written_field(entry.epub_size) + seq![';'] + written_field(
        entry.publication_date,
    ) + seq!['\n']
}

/// The file that holds the given records, in order.
pub open spec fn delimited_text(entries: Seq<EntryView>) -> Seq<char>
    decreases entries.len(),
{
    if entries.len() == 0 {
        Seq::empty()
    } else {
        delimited_text(entries.drop_last()) + written_record(entries.last())
    }
}

/// The rows that the reader finds in `text`, each a sequence of fields;
/// `None` where the reader rejects the text.
pub uninterp spec fn parsed_rows(text: Seq<char>) -> Option<Seq<Seq<Seq<char>>>>;

/// The texts of a sequence of rows, in order.
pub open spec fn row_texts(rows: Seq<Vec<String>>) -> Seq<Seq<Seq<char>>> {
    Seq::new(rows.len(), |i: int| texts(rows[i]@))
}

#[verifier::external_type_specification]
#[verifier::external_body]
pub struct ExCsvError(csv::Error);

/// Trusted: `csv::Writer::write_record` on a writer built with delimiter
/// `;` and no header row, over an empty `Vec<u8>`, followed by
/// `Writer::into_inner`. The contract states what the writer's source
/// shows for a record of seven fields: fields are joined by the delimiter
/// and ended by a line feed; a field is quoted exactly when it holds the
/// delimiter, the quote, `\r` or `\n`, and quotes inside it are doubled.
/// The writer fails only when its sink does or when records differ in
/// length; here the sink is a vector and there is one record, so the result
/// is always there.
#[verifier::external_body]
pub(crate) fn write_record(entry: &Entry) -> (line: Option<String>)
    ensures
        line is Some,
        (line->0)@ == written_record(entry@),
{
    let mut writer =
        csv::WriterBuilder::new().delimiter(b';').has_headers(false).from_writer(Vec::new());
    writer.write_record([
        &entry.id,
        &entry.title,
        &entry.author,
        &entry.publisher,
        &entry.epub_link,
        &entry.epub_size,
        &entry.publication_date,
    ]).ok()?;
    String::from_utf8(writer.into_inner().ok()?).ok()
}

/// Trusted: `csv::Reader::records` on a reader built with delimiter `;`
/// and no header row over the text's bytes; each `StringRecord` is handed
/// out as its fields. The contract only names the result.
#[verifier::external_body]
pub(crate) fn read_rows(text: &str) -> (rows: Result<Vec<Vec<String>>, csv::Error>)
    ensures
        match rows {
            Ok(found) => parsed_rows(text@) == Some(row_texts(found@)),
            Err(_) => parsed_rows(text@) is None,
        },
{
    let mut reader =
        csv::ReaderBuilder::new().delimiter(b';').has_headers(false).from_reader(text.as_bytes());
    reader.records().map(|row| row.map(|r| r.iter().map(String::from).collect())).collect()
}

/// Writes the records as delimited text.
pub fn encode_entries(entries: &Vec<Entry>) -> (text: String)
    ensures
        text@ == delimited_text(entry_views(entries@)),
{
    let mut text = String::new();
    let mut i: usize = 0;
    while i < entries.len()
        invariant
            i <= entries.len(),
            text@ == delimited_text(entry_views(entries@).take(i as int)),
        decreases entries.len() - i,
    {
        proof {
            let views = entry_views(entries@);
            assert(views.take(i + 1).drop_last() =~= views.take(i as int));
            assert(views.take(i + 1).last() == entries@[i as int]@);
        }
        match write_record(&entries[i]) {
            Some(line) => {
                text.append(line.as_str());
            },
            None => {},
        }
        i += 1;
    }
    proof {
        let views = entry_views(entries@);
        assert(views.take(views.len() as int) =~= views);
    }
    text
}

/// Row `r` is the first of `rows` that does not have seven fields.
pub open spec fn is_first_bad_row(rows: Seq<Seq<Seq<char>>>, r: int) -> bool {
    &&& 0 <= r < rows.len()
    &&& rows[r].len() != FIELD_COUNT
    &&& forall|k: int| 0 <= k < r ==> (#[trigger] rows[k]).len() == FIELD_COUNT
}

/// The records that the given rows hold: every row must have exactly seven
/// fields; otherwise the first row that does not is reported.
pub open spec fn records_of_rows(rows: Seq<Seq<Seq<char>>>) -> Result<Seq<EntryView>, int> {
    if exists|r: int| is_first_bad_row(rows, r) {
        Err(choose|r: int| is_first_bad_row(rows, r))
    } else {
        Ok(Seq::new(rows.len(), |i: int| EntryView::from_fields(rows[i])))
    }
}

/// What decoding a file yields, given what the reader found in it.
pub open spec fn decoding(parsed: Option<Seq<Seq<Seq<char>>>>) -> Result<
    Seq<EntryView>,
    RecordFormatError,
> {
    match parsed {
        None => Err(RecordFormatError::Unreadable),
        Some(rows) => match records_of_rows(rows) {
            Ok(records) => Ok(records),
            Err(r) => Err(RecordFormatError::FieldCount { row: r as usize }),
        },
    }
}

/// Turns rows of fields into records.
pub fn entries_from_rows(rows: &Vec<Vec<String>>) -> (result: Result<
    Vec<Entry>,
    RecordFormatError,
>)
    ensures
        match records_of_rows(row_texts(rows@)) {
            Ok(records) => result matches Ok(entries) && entry_views(entries@) == records,
            Err(r) => result == Err::<Vec<Entry>, RecordFormatError>(
                RecordFormatError::FieldCount { row: r as usize },
            ),
        },
{
    let mut entries: Vec<Entry> = Vec::new();
    let mut i: usize = 0;
    while i < rows.len()
        invariant
            i <= rows.len(),
            entries@.len() == i,
            forall|k: int| 0 <= k < i ==> (#[trigger] row_texts(rows@)[k]).len() == FIELD_COUNT,
            forall|k: int|
                0 <= k < i ==> (#[trigger] entries@[k])@ == EntryView::from_fields(
                    row_texts(rows@)[k],
                ),
        decreases rows.len() - i,
    {
        match Entry::from_fields(&rows[i]) {
            Some(entry) => {
                entries.push(entry);
            },
            None => {
                proof {
                    let all = row_texts(rows@);
                    assert(all[i as int].len() == rows@[i as int]@.len());
                    assert(is_first_bad_row(all, i as int));
                    let r = choose|r: int| is_first_bad_row(all, r);
                    if r < i {
                        assert(all[r].len() == FIELD_COUNT);
                    }
                    if i < r {
                        assert(all[i as int].len() == FIELD_COUNT);
                    }
                }
                return Err(RecordFormatError::FieldCount { row: i });
            },
        }
        i += 1;
    }
    proof {
        let all = row_texts(rows@);
        if exists|r: int| is_first_bad_row(all, r) {
            let r = choose|r: int| is_first_bad_row(all, r);
            assert(all[r].len() == FIELD_COUNT);
        }
        assert(entry_views(entries@) =~= records_of_rows(all)->Ok_0);
    }
    Ok(entries)
}

/// Reads records back from delimited text.
///
/// Fails with `Unreadable` where the reader rejects the text, and with
/// `FieldCount` at the first row that does not have seven fields.
pub fn decode_entries(text: &str) -> (result: Result<Vec<Entry>, RecordFormatError>)
    ensures
        match decoding(parsed_rows(text@)) {
            Ok(records) => result matches Ok(entries) && entry_views(entries@) == records,
            Err(e) => result == Err::<Vec<Entry>, RecordFormatError>(e),
        },
{
    match read_rows(text) {
        Ok(rows) => entries_from_rows(&rows),
        Err(_) => Err(RecordFormatError::Unreadable),
    }
}

/// The rows that hold the given records: one row of seven fields each.
pub open spec fn rows_of_records(entries: Seq<EntryView>) -> Seq<Seq<Seq<char>>> {
    Seq::new(entries.len(), |i: int| entries[i].fields())
}

/// Records survive being laid out as rows: whenever the reader finds the
/// rows of some records, decoding gives exactly those records back. (That
/// the reader does find them in the text the writer made is the `csv`
/// crate's part of the round trip and is not proved here.)
pub proof fn lemma_rows_hold_their_records(entries: Seq<EntryView>)
    ensures
        decoding(Some(rows_of_records(entries))) == Ok::<Seq<EntryView>, RecordFormatError>(
            entries,
        ),
{
    let rows = rows_of_records(entries);
    if exists|r: int| is_first_bad_row(rows, r) {
        let r = choose|r: int| is_first_bad_row(rows, r);
        lemma_fields_round_trip(entries[r]);
    }
    assert forall|i: int| 0 <= i < rows.len() implies EntryView::from_fields(rows[i])
        == entries[i] by {
        lemma_fields_round_trip(entries[i]);
    }
    assert(records_of_rows(rows)->Ok_0 =~= entries);
}

} // verus!
