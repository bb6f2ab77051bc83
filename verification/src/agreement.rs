//! Where the two ways of reading the index page agree.
//!
//! Extraction by structure reads what the parser reports; extraction by
//! pattern reads the raw text. Nothing here says what the parser reports
//! for a given text. What is proved is the step after it: where the
//! parser's cells hold exactly what the pattern captured, row by row, both
//! extractions give the same records. The identifier is where they could
//! part: structure keeps every digit of the link's target, the pattern only
//! the digits after the fixed address, and the fixed address has none.

use crate::entry::{all_decimal_digits, EntryView};
use crate::error::{LinkCell, MalformedGroup};
use crate::extractor::{
    decoded_record, extraction, group_count, group_record, lemma_extraction_succeeds_iff,
    required_link, GROUP_SIZE,
};
use crate::fetch::entry_url_of;
use crate::markup::{anchors, cell_markup, HyperlinkView};
use crate::pattern::{
    lemma_rows_have_decimal_ids, pattern_records, records_of, rows_from, RowMatch,
};
use crate::text::{
    digits_of, lemma_digits_of_concat, lemma_digits_of_numeral,
    lemma_digits_of_text_without_digits,
};
use vstd::prelude::*;

verus! {

/// The digits of an entry's page address are the digits of its identifier:
/// the rest of the address holds none.
pub proof fn lemma_address_digits_are_the_identifier(id: Seq<char>)
    requires
        all_decimal_digits(id),
    ensures
        digits_of(entry_url_of(id)) == id,
{
    let head = "https://yonde.itazuraneko.org/novelhtml/"@;
    let tail = ".html"@;
    reveal_strlit("https://yonde.itazuraneko.org/novelhtml/");
    reveal_strlit(".html");
    lemma_digits_of_text_without_digits(head);
    lemma_digits_of_text_without_digits(tail);
    lemma_digits_of_numeral(id);
    lemma_digits_of_concat(head, id);
    lemma_digits_of_concat(head + id, tail);
    assert(digits_of(head) + id + digits_of(tail) =~= id);
}

/// Group `g` of the parser's cells holds what the pattern captured in a
/// row: the index link points to the page of the captured identifier and
/// holds the title, the artifact link holds target and size, and the plain
/// cells hold author, publisher and date.
pub open spec fn group_mirrors_row(cells: Seq<Seq<char>>, g: int, raw: EntryView) -> bool {
    &&& required_link(anchors(cells[GROUP_SIZE * g])) == Some(
        HyperlinkView { target: Some(entry_url_of(raw.id)), body: raw.title },
    )
    &&& cells[GROUP_SIZE * g + 1] == raw.author
    &&& cells[GROUP_SIZE * g + 2] == raw.publisher
    &&& required_link(anchors(cells[GROUP_SIZE * g + 3])) == Some(
        HyperlinkView { target: Some(raw.epub_link), body: raw.epub_size },
    )
    &&& cells[GROUP_SIZE * g + 4] == raw.publication_date
}

/// The parser's cells are the pattern's rows, five cells to a row.
pub open spec fn cells_mirror_rows(cells: Seq<Seq<char>>, rows: Seq<RowMatch>) -> bool {
    &&& cells.len() == GROUP_SIZE * rows.len()
    &&& forall|g: int| 0 <= g < rows.len() ==> #[trigger] group_mirrors_row(cells, g, rows[g].raw)
}

/// A group that mirrors a row gives the row's record.
pub proof fn lemma_mirrored_group_gives_the_same_record(
    cells: Seq<Seq<char>>,
    g: int,
    raw: EntryView,
)
    requires
        all_decimal_digits(raw.id),
        group_mirrors_row(cells, g, raw),
    ensures
        group_record(cells, g) == Ok::<EntryView, LinkCell>(decoded_record(raw)),
{
    lemma_address_digits_are_the_identifier(raw.id);
}

/// Where the cells mirror the rows, extraction by structure succeeds and
/// gives the records of the rows.
pub proof fn lemma_mirrored_rows_give_the_same_records(
    cells: Seq<Seq<char>>,
    rows: Seq<RowMatch>,
)
    requires
        cells_mirror_rows(cells, rows),
        forall|g: int| 0 <= g < rows.len() ==> all_decimal_digits((#[trigger] rows[g]).raw.id),
    ensures
        extraction(cells) == Ok::<Seq<EntryView>, MalformedGroup>(records_of(rows)),
{
    assert(group_count(cells) == rows.len());
    assert forall|g: int| 0 <= g < group_count(cells) implies #[trigger] group_record(cells, g)
        == Ok::<EntryView, LinkCell>(records_of(rows)[g]) by {
        assert(group_mirrors_row(cells, g, rows[g].raw));
        lemma_mirrored_group_gives_the_same_record(cells, g, rows[g].raw);
    }
    lemma_extraction_succeeds_iff(cells);
    let records = extraction(cells)->Ok_0;
    assert(records.len() == rows.len());
    assert forall|g: int| 0 <= g < records.len() implies records[g] == records_of(rows)[g] by {
        assert(group_record(cells, g) == Ok::<EntryView, LinkCell>(records_of(rows)[g]));
    }
    assert(records =~= records_of(rows));
}

/// The two extractions give the same records for every document whose
/// cells, as the parser reports them, mirror the rows that the pattern
/// finds in its text.
pub proof fn lemma_extractors_agree_on_mirrored_documents(document: Seq<char>)
    requires
        cells_mirror_rows(cell_markup(document), rows_from(document, 0)),
    ensures
        extraction(cell_markup(document)) == Ok::<Seq<EntryView>, MalformedGroup>(
            pattern_records(document),
        ),
{
    lemma_rows_have_decimal_ids(document, 0);
    lemma_mirrored_rows_give_the_same_records(cell_markup(document), rows_from(document, 0));
}

} // verus!
