//! The two text files a run can leave behind: the record file made from the
//! index page, and the job file made from a record file.

use crate::entry::{entry_views, Entry};
use crate::error::BackupError;
use crate::extractor::{extract_entries, extraction};
use crate::fetch::{job_lines, job_lines_of};
use crate::markup::cell_markup;
use crate::record_store::{decode_entries, decoding, delimited_text, encode_entries, parsed_rows};
use vstd::prelude::*;

verus! {

/// Turns the index page into the record file.
///
/// Every complete group of five table cells becomes one line of the file.
/// Where a group lacks a required hyperlink, nothing is written and the
/// first such group is reported.
pub fn serialize_data_to_csv_scraper(itazuraneko_data: &str) -> (result: Result<
    String,
    BackupError,
>)
    ensures
        match extraction(cell_markup(itazuraneko_data@)) {
            Ok(records) => result matches Ok(text) && text@ == delimited_text(records),
            Err(malformed) => result matches Err(BackupError::MalformedIndexDocument(e)) && e@
                == malformed,
        },
{
    match extract_entries(itazuraneko_data) {
        Ok(entries) => Ok(encode_entries(&entries)),
        Err(e) => Err(e),
    }
}

/// Turns a record file into the job file that fetches every record into
/// `dir`, one shell line per record.
pub fn serialize_csv_to_jobs(records: &str, dir: &str) -> (result: Result<String, BackupError>)
    ensures
        match decoding(parsed_rows(records@)) {
            Ok(entries) => result matches Ok(jobs) && jobs@ == job_lines_of(entries, dir@),
            Err(e) => result == Err::<String, BackupError>(BackupError::RecordFormatError(e)),
        },
{
    match decode_entries(records) {
        Ok(entries) => Ok(job_lines(&entries, dir)),
        Err(e) => Err(BackupError::RecordFormatError(e)),
    }
}

} // verus!
