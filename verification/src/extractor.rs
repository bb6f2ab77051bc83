//! From the index page to records.
//!
//! The page's table cells repeat in groups of five:
//! cell 0 links to the entry's page and holds the title, cell 1 is the
//! author, cell 2 the publisher, cell 3 links to the artifact and holds its
//! size, cell 4 is the publication date. Each complete group becomes one
//! record; cells left over after the last complete group are ignored.
//!
//! A group whose cell 0 or cell 3 has no hyperlink with a target makes the
//! whole extraction fail at that group: no records are returned.

use crate::entry::{all_decimal_digits, entry_views, texts, Entry, EntryView};
use crate::error::{BackupError, LinkCell, MalformedEntry, MalformedGroup};
use crate::markup::{
    anchors, cell_markup, decode_entities, decoded_entities, hyperlink_views, hyperlinks,
    table_cells, Hyperlink, HyperlinkView,
};
use crate::text::{decimal_digits, digits_of, lemma_digits_of_are_digits};
use vstd::prelude::*;

verus! {

/// Number of table cells that make up one record.
pub const GROUP_SIZE: usize = 5;

/// The hyperlink a cell is read through: its first anchor.
/// `None` where the cell has no anchor or the first one has no target.
pub open spec fn required_link(links: Seq<HyperlinkView>) -> Option<HyperlinkView> {
    if links.len() > 0 && links[0].target is Some {
        Some(links[0])
    } else {
        None
    }
}

/// The record of one group before any entity is decoded: the identifier is
/// made of the digits of the index link's target, the title is the index
/// link's body, the artifact link gives target and size, and the three plain
/// cells are taken as they are. Fails with the first cell that lacks its
/// hyperlink.
pub open spec fn raw_record(
    index_links: Seq<HyperlinkView>,
    author: Seq<char>,
    publisher: Seq<char>,
    artifact_links: Seq<HyperlinkView>,
    publication_date: Seq<char>,
) -> Result<EntryView, LinkCell> {
    match required_link(index_links) {
        None => Err(LinkCell::Index),
        Some(index) => match required_link(artifact_links) {
            None => Err(LinkCell::Artifact),
            Some(artifact) => Ok(
                EntryView {
                    id: digits_of(index.target->0),
                    title: index.body,
                    author,
                    publisher,
                    epub_link: artifact.target->0,
                    epub_size: artifact.body,
                    publication_date,
                },
            ),
        },
    }
}

/// A raw record with every textual field decoded once. The identifier holds
/// digits only and is kept as it is.
pub open spec fn decoded_record(raw: EntryView) -> EntryView {
    EntryView {
        id: raw.id,
        title: decoded_entities(raw.title),
        author: decoded_entities(raw.author),
        publisher: decoded_entities(raw.publisher),
        epub_link: decoded_entities(raw.epub_link),
        epub_size: decoded_entities(raw.epub_size),
        publication_date: decoded_entities(raw.publication_date),
    }
}

/// Number of complete groups among `cells`.
pub open spec fn group_count(cells: Seq<Seq<char>>) -> int {
    cells.len() as int / GROUP_SIZE as int
}

/// The record of group `g` of `cells`, or the cell that makes it malformed.
pub open spec fn group_record(cells: Seq<Seq<char>>, g: int) -> Result<EntryView, LinkCell>
    recommends
        0 <= g < group_count(cells),
{
    match raw_record(
        anchors(cells[GROUP_SIZE * g]),
        cells[GROUP_SIZE * g + 1],
        cells[GROUP_SIZE * g + 2],
        anchors(cells[GROUP_SIZE * g + 3]),
        cells[GROUP_SIZE * g + 4],
    ) {
        Ok(raw) => Ok(decoded_record(raw)),
        Err(cell) => Err(cell),
    }
}

/// Group `g` is the first malformed group of `cells`.
pub open spec fn is_first_malformed(cells: Seq<Seq<char>>, g: int) -> bool {
    &&& 0 <= g < group_count(cells)
    &&& group_record(cells, g) is Err
    &&& forall|h: int| 0 <= h < g ==> #[trigger] group_record(cells, h) is Ok
}

/// What extraction yields for a document with the given cells: one record
/// per complete group, in order; or, where a group is malformed, the first
/// such group and its offending cell.
pub open spec fn extraction(cells: Seq<Seq<char>>) -> Result<Seq<EntryView>, MalformedGroup> {
    if exists|g: int| is_first_malformed(cells, g) {
        let g = choose|g: int| is_first_malformed(cells, g);
        Err(MalformedGroup { group: g, cell: group_record(cells, g)->Err_0 })
    } else {
        Ok(Seq::new(group_count(cells) as nat, |g: int| group_record(cells, g)->Ok_0))
    }
}

/// Extraction succeeds exactly when every complete group has both links.
pub proof fn lemma_extraction_succeeds_iff(cells: Seq<Seq<char>>)
    ensures
        extraction(cells) is Ok <==> forall|g: int|
            0 <= g < group_count(cells) ==> #[trigger] group_record(cells, g) is Ok,
{
    if extraction(cells) is Ok {
        assert forall|g: int| 0 <= g < group_count(cells) implies #[trigger] group_record(
            cells,
            g,
        ) is Ok by {
            if group_record(cells, g) is Err {
                lemma_malformed_group_has_first(cells, g);
            }
        }
    }
}

/// Below any malformed group there is a first one.
proof fn lemma_malformed_group_has_first(cells: Seq<Seq<char>>, g: int)
    requires
        0 <= g < group_count(cells),
        group_record(cells, g) is Err,
    ensures
        exists|f: int| 0 <= f <= g && is_first_malformed(cells, f),
    decreases g,
{
    if exists|h: int| 0 <= h < g && group_record(cells, h) is Err {
        let h = choose|h: int| 0 <= h < g && group_record(cells, h) is Err;
        lemma_malformed_group_has_first(cells, h);
    } else {
        assert(is_first_malformed(cells, g));
    }
}

/// A failed extraction names the first malformed group.
pub proof fn lemma_extraction_fails_at(cells: Seq<Seq<char>>, g: int)
    requires
        is_first_malformed(cells, g),
    ensures
        extraction(cells) == Err::<Seq<EntryView>, MalformedGroup>(
            MalformedGroup { group: g, cell: group_record(cells, g)->Err_0 },
        ),
{
    let f = choose|f: int| is_first_malformed(cells, f);
    if f < g {
        assert(group_record(cells, f) is Ok);
    }
    if g < f {
        assert(group_record(cells, g) is Ok);
    }
}

/// Reads one group's record from what the parser found in its cells,
/// before decoding.
pub fn raw_entry(
    index_links: &Vec<Hyperlink>,
    author: &str,
    publisher: &str,
    artifact_links: &Vec<Hyperlink>,
    publication_date: &str,
) -> (result: Result<Entry, LinkCell>)
    ensures
        match raw_record(
            hyperlink_views(index_links@),
            author@,
            publisher@,
            hyperlink_views(artifact_links@),
            publication_date@,
        ) {
            Ok(raw) => result matches Ok(entry) && entry@ == raw,
            Err(cell) => result == Err::<Entry, LinkCell>(cell),
        },
{
    if index_links.len() == 0 {
        return Err(LinkCell::Index);
    }
    let index = &index_links[0];
    let index_target = match &index.target {
        Some(target) => target,
        None => {
            return Err(LinkCell::Index);
        },
    };
    if artifact_links.len() == 0 {
        return Err(LinkCell::Artifact);
    }
    let artifact = &artifact_links[0];
    let artifact_target = match &artifact.target {
        Some(target) => target,
        None => {
            return Err(LinkCell::Artifact);
        },
    };
    Ok(
        Entry {
            id: decimal_digits(index_target.as_str()),
            title: index.body.clone(),
            author: String::from_str(author),
            publisher: String::from_str(publisher),
            epub_link: artifact_target.clone(),
            epub_size: artifact.body.clone(),
            publication_date: String::from_str(publication_date),
        },
    )
}

/// Decodes the character references of every textual field of a raw record.
pub fn decode_fields(raw: &Entry) -> (entry: Entry)
    ensures
        entry@ == decoded_record(raw@),
{
    Entry {
        id: raw.id.clone(),
        title: decode_entities(raw.title.as_str()),
        author: decode_entities(raw.author.as_str()),
        publisher: decode_entities(raw.publisher.as_str()),
        epub_link: decode_entities(raw.epub_link.as_str()),
        epub_size: decode_entities(raw.epub_size.as_str()),
        publication_date: decode_entities(raw.publication_date.as_str()),
    }
}

/// The record of group `g` of `cells`.
pub fn entry_of_group(cells: &Vec<String>, g: usize) -> (result: Result<Entry, LinkCell>)
    requires
        0 <= g < group_count(texts(cells@)),
    ensures
        match group_record(texts(cells@), g as int) {
            Ok(record) => result matches Ok(entry) && entry@ == record,
            Err(cell) => result == Err::<Entry, LinkCell>(cell),
        },
{
    assert(5 * g + 5 <= cells.len()) by {
        assert(texts(cells@).len() == cells@.len());
    }
    let base = 5 * g;
    let index_links = hyperlinks(cells[base].as_str());
    let artifact_links = hyperlinks(cells[base + 3].as_str());
    match raw_entry(
        &index_links,
        cells[base + 1].as_str(),
        cells[base + 2].as_str(),
        &artifact_links,
        cells[base + 4].as_str(),
    ) {
        Ok(raw) => Ok(decode_fields(&raw)),
        Err(cell) => Err(cell),
    }
}

/// Groups the cells by five and turns each complete group into a record,
/// stopping at the first malformed group.
pub fn entries_from_cells(cells: &Vec<String>) -> (result: Result<Vec<Entry>, MalformedEntry>)
    ensures
        match extraction(texts(cells@)) {
            Ok(records) => result matches Ok(entries) && entry_views(entries@) == records,
            Err(malformed) => result matches Err(e) && e@ == malformed,
        },
{
    let groups = cells.len() / GROUP_SIZE;
    let mut entries: Vec<Entry> = Vec::new();
    let mut g: usize = 0;
    while g < groups
        invariant
            g <= groups,
            groups == group_count(texts(cells@)),
            entries@.len() == g,
            forall|h: int|
                0 <= h < g ==> #[trigger] group_record(texts(cells@), h) == Ok::<
                    EntryView,
                    LinkCell,
                >(entries@[h]@),
        decreases groups - g,
    {
        match entry_of_group(cells, g) {
            Ok(entry) => {
                entries.push(entry);
            },
            Err(cell) => {
                proof {
                    assert(is_first_malformed(texts(cells@), g as int));
                    lemma_extraction_fails_at(texts(cells@), g as int);
                }
                return Err(MalformedEntry { group: g, cell });
            },
        }
        g += 1;
    }
    proof {
        lemma_extraction_succeeds_iff(texts(cells@));
        assert(entry_views(entries@) =~= extraction(texts(cells@))->Ok_0);
    }
    Ok(entries)
}

/// Extracts the records of an index page.
///
/// Returns one record per complete group of five cells, in document order,
/// or `MalformedIndexDocument` naming the first group that lacks a required
/// hyperlink.
pub fn extract_entries(document: &str) -> (result: Result<Vec<Entry>, BackupError>)
    ensures
        match extraction(cell_markup(document@)) {
            Ok(records) => result matches Ok(entries) && entry_views(entries@) == records,
            Err(malformed) => result matches Err(BackupError::MalformedIndexDocument(e)) && e@
                == malformed,
        },
{
    let cells = table_cells(document);
    match entries_from_cells(&cells) {
        Ok(entries) => Ok(entries),
        Err(malformed) => Err(BackupError::MalformedIndexDocument(malformed)),
    }
}

/// Group `g` of `cells` is well formed: both links are there, the index
/// link's target holds a digit, and the artifact link's target decodes to a
/// non-empty text.
pub open spec fn well_formed_group(cells: Seq<Seq<char>>, g: int) -> bool {
    &&& required_link(anchors(cells[GROUP_SIZE * g])) matches Some(index)
    &&& digits_of(index.target->0).len() > 0
    &&& required_link(anchors(cells[GROUP_SIZE * g + 3])) matches Some(artifact)
    &&& decoded_entities(artifact.target->0).len() > 0
}

/// A document with N complete groups, all well formed, yields exactly N
/// records, each with a non-empty decimal identifier and a non-empty
/// artifact link.
pub proof fn lemma_well_formed_document_yields_every_group(cells: Seq<Seq<char>>)
    requires
        forall|g: int| 0 <= g < group_count(cells) ==> #[trigger] well_formed_group(cells, g),
    ensures
        extraction(cells) matches Ok(records) && records.len() == group_count(cells)
            && forall|g: int|
            0 <= g < records.len() ==> (#[trigger] records[g]).has_decimal_id()
                && records[g].epub_link.len() > 0,
{
    assert forall|g: int| 0 <= g < group_count(cells) implies #[trigger] group_record(
        cells,
        g,
    ) is Ok by {
        assert(well_formed_group(cells, g));
    }
    lemma_extraction_succeeds_iff(cells);
    let records = extraction(cells)->Ok_0;
    assert forall|g: int| 0 <= g < records.len() implies (#[trigger] records[g]).has_decimal_id()
        && records[g].epub_link.len() > 0 by {
        assert(well_formed_group(cells, g));
        let index = required_link(anchors(cells[GROUP_SIZE * g]))->0;
        lemma_digits_of_are_digits(index.target->0);
    }
}

/// Whatever the document, the identifier of an extracted record holds
/// decimal digits only, and there is one record per complete group.
pub proof fn lemma_extracted_ids_are_decimal(cells: Seq<Seq<char>>)
    ensures
        extraction(cells) matches Ok(records) ==> records.len() == cells.len() / GROUP_SIZE as nat
            && forall|g: int|
            0 <= g < records.len() ==> all_decimal_digits((#[trigger] records[g]).id),
{
    if extraction(cells) is Ok {
        lemma_extraction_succeeds_iff(cells);
        let records = extraction(cells)->Ok_0;
        assert forall|g: int| 0 <= g < records.len() implies all_decimal_digits(
            (#[trigger] records[g]).id,
        ) by {
            assert(group_record(cells, g) is Ok);
            let index = required_link(anchors(cells[GROUP_SIZE * g]))->0;
            lemma_digits_of_are_digits(index.target->0);
        }
    }
}

/// Fewer than five cells after the last complete group change nothing:
/// they contribute no record and cannot make the extraction fail.
pub proof fn lemma_trailing_cells_are_dropped(cells: Seq<Seq<char>>, trailing: Seq<Seq<char>>)
    requires
        cells.len() % GROUP_SIZE as nat == 0,
        trailing.len() < GROUP_SIZE,
    ensures
        extraction(cells + trailing) == extraction(cells),
{
    let all = cells + trailing;
    assert(group_count(all) == group_count(cells));
    assert forall|g: int| 0 <= g < group_count(cells) implies #[trigger] group_record(all, g)
        == group_record(cells, g) by {
        assert(all[GROUP_SIZE * g] == cells[GROUP_SIZE * g]);
        assert(all[GROUP_SIZE * g + 1] == cells[GROUP_SIZE * g + 1]);
        assert(all[GROUP_SIZE * g + 2] == cells[GROUP_SIZE * g + 2]);
        assert(all[GROUP_SIZE * g + 3] == cells[GROUP_SIZE * g + 3]);
        assert(all[GROUP_SIZE * g + 4] == cells[GROUP_SIZE * g + 4]);
    }
    if exists|g: int| is_first_malformed(cells, g) {
        let g = choose|g: int| is_first_malformed(cells, g);
        assert(is_first_malformed(all, g)) by {
            assert forall|h: int| 0 <= h < g implies #[trigger] group_record(all, h) is Ok by {
                assert(group_record(cells, h) is Ok);
            }
        }
        lemma_extraction_fails_at(cells, g);
        lemma_extraction_fails_at(all, g);
    } else {
        if exists|g: int| is_first_malformed(all, g) {
            let g = choose|g: int| is_first_malformed(all, g);
            assert(is_first_malformed(cells, g)) by {
                assert(group_record(all, g) == group_record(cells, g));
                assert forall|h: int| 0 <= h < g implies #[trigger] group_record(
                    cells,
                    h,
                ) is Ok by {
                    assert(group_record(all, h) is Ok);
                }
            }
        }
        assert(extraction(all)->Ok_0 =~= extraction(cells)->Ok_0);
    }
}

} // verus!
