//! The catalogue record shared by extraction, storage and download.

use vstd::prelude::*;

verus! {

/// Number of fields of a record, in storage order.
pub const FIELD_COUNT: usize = 7;

/// One catalogue listing. Every field is always present; a field the source
/// left blank is the empty string.
#[derive(Debug, Clone, PartialEq, Eq)]
pub struct Entry {
    pub id: String,
    pub title: String,
    pub author: String,
    pub publisher: String,
    pub epub_link: String,
    pub epub_size: String,
    pub publication_date: String,
}

/// The mathematical value of an [`Entry`]: its seven texts.
pub struct EntryView {
    pub id: Seq<char>,
    pub title: Seq<char>,
    pub author: Seq<char>,
    pub publisher: Seq<char>,
    pub epub_link: Seq<char>,
    pub epub_size: Seq<char>,
    pub publication_date: Seq<char>,
}

impl View for Entry {
    type V = EntryView;

    open spec fn view(&self) -> EntryView {
        EntryView {
            id: self.id@,
            title: self.title@,
            author: self.author@,
            publisher: self.publisher@,
            epub_link: self.epub_link@,
            epub_size: self.epub_size@,
            publication_date: self.publication_date@,
        }
    }
}

/// A decimal digit character, `'0'` to `'9'`.
pub open spec fn is_decimal_digit(c: char) -> bool {
    '0' <= c && c <= '9'
}

/// Every character of `text` is a decimal digit.
pub open spec fn all_decimal_digits(text: Seq<char>) -> bool {
    forall|i: int| 0 <= i < text.len() ==> is_decimal_digit(#[trigger] text[i])
}

impl EntryView {
    /// The fields in storage order.
    pub open spec fn fields(self) -> Seq<Seq<char>> {
        seq![
            self.id,
            self.title,
            self.author,
            self.publisher,
            self.epub_link,
            self.epub_size,
            self.publication_date,
        ]
    }

    /// The record whose fields, in storage order, are `fields`.
    pub open spec fn from_fields(fields: Seq<Seq<char>>) -> EntryView
        recommends
            fields.len() == FIELD_COUNT,
    {
        EntryView {
            id: fields[0],
            title: fields[1],
            author: fields[2],
            publisher: fields[3],
            epub_link: fields[4],
            epub_size: fields[5],
            publication_date: fields[6],
        }
    }

    /// What extraction promises of a record it produced from a well-formed
    /// group: a non-empty decimal identifier.
    pub open spec fn has_decimal_id(self) -> bool {
        self.id.len() > 0 && all_decimal_digits(self.id)
    }
}

/// The views of a sequence of entries, in order.
pub open spec fn entry_views(entries: Seq<Entry>) -> Seq<EntryView> {
    Seq::new(entries.len(), |i: int| entries[i]@)
}

/// The texts of a sequence of strings, in order.
pub open spec fn texts(strings: Seq<String>) -> Seq<Seq<char>> {
    Seq::new(strings.len(), |i: int| strings[i]@)
}

impl Entry {
    /// Builds a record from its seven fields.
    pub fn new(
        id: String,
        title: String,
        author: String,
        publisher: String,
        epub_link: String,
        epub_size: String,
        publication_date: String,
    ) -> (entry: Entry)
        ensures
            entry@ == (EntryView {
                id: id@,
                title: title@,
                author: author@,
                publisher: publisher@,
                epub_link: epub_link@,
                epub_size: epub_size@,
                publication_date: publication_date@,
            }),
    {
        Entry { id, title, author, publisher, epub_link, epub_size, publication_date }
    }

    /// The fields in storage order, as owned strings.
    pub fn to_fields(&self) -> (fields: Vec<String>)
        ensures
            texts(fields@) == self@.fields(),
    {
        let mut fields: Vec<String> = Vec::new();
        fields.push(self.id.clone());
        fields.push(self.title.clone());
        fields.push(self.author.clone());
        fields.push(self.publisher.clone());
        fields.push(self.epub_link.clone());
        fields.push(self.epub_size.clone());
        fields.push(self.publication_date.clone());
        assert(texts(fields@) =~= self@.fields());
        fields
    }

    /// The record held by a row of exactly seven fields; `None` for a row of
    /// any other length.
    pub fn from_fields(fields: &Vec<String>) -> (entry: Option<Entry>)
        ensures
            fields@.len() != FIELD_COUNT ==> entry is None,
            fields@.len() == FIELD_COUNT ==> entry is Some && entry->0@
                == EntryView::from_fields(texts(fields@)),
    {
        if fields.len() != FIELD_COUNT {
            return None;
        }
        Some(
            Entry {
                id: fields[0].clone(),
                title: fields[1].clone(),
                author: fields[2].clone(),
                publisher: fields[3].clone(),
                epub_link: fields[4].clone(),
                epub_size: fields[5].clone(),
                publication_date: fields[6].clone(),
            },
        )
    }
}

/// Turning a record into its fields and back gives the record again.
pub proof fn lemma_fields_round_trip(entry: EntryView)
    ensures
        entry.fields().len() == FIELD_COUNT,
        EntryView::from_fields(entry.fields()) == entry,
{
}

} // verus!
