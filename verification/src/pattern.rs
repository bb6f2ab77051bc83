//! Extraction by row pattern.
//!
//! A second way to read the index page: instead of parsing the markup, look
//! in the raw text for rows written exactly as the index page writes them,
//!
//! ```text
//! <tr><td><a href="https://yonde.itazuraneko.org/novelhtml/ID.html">TITLE</a></td>
//! <td>AUTHOR</td><td>PUBLISHER</td><td><a href="LINK">SIZE</a></td><td>DATE</td></tr>
//! ```
//!
//! on one line and without the line break shown here. `ID` is one or more
//! decimal digits. Each other capture is as short as it can be and never
//! crosses a line feed. Rows are taken from left to right and do not
//! overlap; text between rows is skipped.

use crate::entry::{all_decimal_digits, entry_views, is_decimal_digit, texts, Entry, EntryView};
use crate::extractor::{decode_fields, decoded_record};
use crate::text::chars_of;
use vstd::prelude::*;

verus! {

/// `part` stands in `text` at position `at`.
pub open spec fn occurs_at(text: Seq<char>, part: Seq<char>, at: int) -> bool {
    0 <= at && at + part.len() <= text.len() && text.subrange(at, at + part.len()) == part
}

/// A capture that starts at `from` and must be followed by `closer` ends at
/// `stop`: `closer` stands at `stop`, and between `from` and `stop` there
/// is neither a line feed nor an earlier place where `closer` stands.
pub open spec fn is_capture_end(text: Seq<char>, from: int, closer: Seq<char>, stop: int) -> bool {
    &&& from <= stop
    &&& occurs_at(text, closer, stop)
    &&& forall|j: int| from <= j < stop ==> #[trigger] text[j] != '\n'
    &&& forall|j: int| from <= j < stop ==> !#[trigger] occurs_at(text, closer, j)
}

/// Where the capture that starts at `from` ends, if it can end at all.
pub open spec fn capture_end(text: Seq<char>, from: int, closer: Seq<char>) -> Option<int> {
    if exists|stop: int| is_capture_end(text, from, closer, stop) {
        Some(choose|stop: int| is_capture_end(text, from, closer, stop))
    } else {
        None
    }
}

/// A capture has at most one end.
pub proof fn lemma_capture_end_is_unique(text: Seq<char>, from: int, closer: Seq<char>, stop: int)
    requires
        is_capture_end(text, from, closer, stop),
    ensures
        capture_end(text, from, closer) == Some(stop),
{
    let chosen = choose|q: int| is_capture_end(text, from, closer, q);
    if chosen < stop {
        assert(!occurs_at(text, closer, chosen));
    }
    if stop < chosen {
        assert(!occurs_at(text, closer, stop));
    }
}

/// End of the run of decimal digits that starts at `from`.
pub open spec fn digits_end(text: Seq<char>, from: int) -> int
    decreases text.len() - from,
{
    if 0 <= from < text.len() && is_decimal_digit(text[from]) {
        digits_end(text, from + 1)
    } else {
        from
    }
}

/// `part` stands in `text` at position `at`.
pub fn occurs(text: &Vec<char>, part: &Vec<char>, at: usize) -> (found: bool)
    ensures
        found == occurs_at(text@, part@, at as int),
{
    if part.len() > text.len() || at > text.len() - part.len() {
        return false;
    }
    let mut k: usize = 0;
    while k < part.len()
        invariant
            k <= part.len(),
            at + part.len() <= text.len(),
            forall|j: int| 0 <= j < k ==> text@[at + j] == part@[j],
        decreases part.len() - k,
    {
        if text[at + k] != part[k] {
            proof {
                assert(text@.subrange(at as int, at + part.len())[k as int] == text@[at + k]);
            }
            return false;
        }
        k += 1;
    }
    proof {
        assert(text@.subrange(at as int, at + part.len()) =~= part@);
    }
    true
}

/// Looks for the end of the capture that starts at `from`.
pub fn find_capture_end(text: &Vec<char>, from: usize, closer: &Vec<char>) -> (stop: Option<usize>)
    ensures
        match capture_end(text@, from as int, closer@) {
            Some(q) => stop matches Some(s) && s == q,
            None => stop is None,
        },
        stop matches Some(s) ==> from <= s && s + closer@.len() <= text@.len(),
{
    let mut q: usize = from;
    while q <= text.len()
        invariant
            from <= q,
            forall|j: int| from <= j < q ==> #[trigger] text@[j] != '\n',
            forall|j: int| from <= j < q ==> !#[trigger] occurs_at(text@, closer@, j),
        decreases text.len() + 1 - q,
    {
        if occurs(text, closer, q) {
            proof {
                lemma_capture_end_is_unique(text@, from as int, closer@, q as int);
            }
            return Some(q);
        }
        if q == text.len() {
            proof {
                assert forall|stop: int| !is_capture_end(text@, from as int, closer@, stop) by {
                    if is_capture_end(text@, from as int, closer@, stop) {
                        assert(stop <= q);
                        if stop < q {
                            assert(!occurs_at(text@, closer@, stop));
                        }
                    }
                }
            }
            return None;
        }
        if text[q] == '\n' {
            proof {
                assert forall|stop: int| !is_capture_end(text@, from as int, closer@, stop) by {
                    if is_capture_end(text@, from as int, closer@, stop) {
                        if stop <= q {
                            assert(!occurs_at(text@, closer@, stop));
                        } else {
                            assert(text@[q as int] != '\n');
                        }
                    }
                }
            }
            return None;
        }
        q += 1;
    }
    proof {
        assert forall|stop: int| !is_capture_end(text@, from as int, closer@, stop) by {
            if is_capture_end(text@, from as int, closer@, stop) {
                assert(stop + closer@.len() <= text@.len());
            }
        }
    }
    None
}

/// Finds the end of the run of decimal digits that starts at `from`.
pub fn find_digits_end(text: &Vec<char>, from: usize) -> (end: usize)
    ensures
        end == digits_end(text@, from as int),
        from <= end,
        end <= text@.len() || end == from,
{
    let mut end: usize = from;
    while end < text.len() && '0' <= text[end] && text[end] <= '9'
        invariant
            from <= end,
            end <= text@.len() || end == from,
            digits_end(text@, from as int) == digits_end(text@, end as int),
        decreases text.len() - end,
    {
        end += 1;
    }
    end
}

/// The characters of `text` from `from` up to `to`, as a string.
pub fn text_between(text: &Vec<char>, from: usize, to: usize) -> (part: String)
    requires
        from <= to <= text@.len(),
    ensures
        part@ == text@.subrange(from as int, to as int),
{
    let mut part = String::new();
    let mut i: usize = from;
    while i < to
        invariant
            from <= i <= to,
            to <= text@.len(),
            part@ == text@.subrange(from as int, i as int),
        decreases to - i,
    {
        proof {
            assert(text@.subrange(from as int, i + 1) =~= text@.subrange(from as int, i as int).push(
                text@[i as int],
            ));
        }
        part.push(text[i]);
        i += 1;
    }
    part
}

/// What a run of captures found: the captured texts in order, and the
/// position after the last closer.
pub struct Captures {
    pub texts: Seq<Seq<char>>,
    pub end: int,
}

/// Takes one capture per closer, each starting where the closer before it
/// ended; `None` as soon as one of them cannot end.
pub open spec fn captures(text: Seq<char>, from: int, closers: Seq<Seq<char>>) -> Option<Captures>
    decreases closers.len(),
{
    if closers.len() == 0 {
        Some(Captures { texts: Seq::empty(), end: from })
    } else {
        match captures(text, from, closers.drop_last()) {
            None => None,
            Some(found) => match capture_end(text, found.end, closers.last()) {
                None => None,
                Some(stop) => Some(
                    Captures {
                        texts: found.texts.push(text.subrange(found.end, stop)),
                        end: stop + closers.last().len(),
                    },
                ),
            },
        }
    }
}

/// Once the first closers admit no captures, neither do all of them.
pub proof fn lemma_captures_fail_early(
    text: Seq<char>,
    from: int,
    closers: Seq<Seq<char>>,
    k: int,
)
    requires
        0 <= k <= closers.len(),
        captures(text, from, closers.take(k)) is None,
    ensures
        captures(text, from, closers) is None,
    decreases closers.len(),
{
    if k < closers.len() {
        assert(closers.drop_last().take(k) =~= closers.take(k));
        lemma_captures_fail_early(text, from, closers.drop_last(), k);
    } else {
        assert(closers.take(k) =~= closers);
    }
}

/// Captures lie inside the text, one after the other.
pub proof fn lemma_captures_bounds(text: Seq<char>, from: int, closers: Seq<Seq<char>>)
    requires
        0 <= from <= text.len(),
    ensures
        captures(text, from, closers) matches Some(found) ==> from <= found.end <= text.len()
            && found.texts.len() == closers.len(),
    decreases closers.len(),
{
    if closers.len() > 0 {
        lemma_captures_bounds(text, from, closers.drop_last());
    }
}

/// The texts of a sequence of character vectors, in order.
pub open spec fn vec_texts(parts: Seq<Vec<char>>) -> Seq<Seq<char>> {
    Seq::new(parts.len(), |i: int| parts[i]@)
}

/// Takes one capture per closer, starting at `from`.
pub fn find_captures(text: &Vec<char>, from: usize, closers: &Vec<Vec<char>>) -> (result: Option<
    (Vec<String>, usize),
>)
    ensures
        match captures(text@, from as int, vec_texts(closers@)) {
            Some(found) => result matches Some((parts, end)) && texts(parts@)
                == found.texts && end == found.end,
            None => result is None,
        },
{
    let mut parts: Vec<String> = Vec::new();
    let mut at: usize = from;
    let mut k: usize = 0;
    proof {
        assert(vec_texts(closers@).take(0) =~= Seq::<Seq<char>>::empty());
        assert(texts(parts@) =~= Seq::<Seq<char>>::empty());
    }
    while k < closers.len()
        invariant
            k <= closers.len(),
            from <= at,
            captures(text@, from as int, vec_texts(closers@).take(k as int)) == Some(
                Captures { texts: texts(parts@), end: at as int },
            ),
        decreases closers.len() - k,
    {
        proof {
            let all = vec_texts(closers@);
            assert(all.take(k + 1).drop_last() =~= all.take(k as int));
            assert(all.take(k + 1).last() == closers@[k as int]@);
        }
        match find_capture_end(text, at, &closers[k]) {
            None => {
                proof {
                    lemma_captures_fail_early(text@, from as int, vec_texts(closers@), k + 1);
                }
                return None;
            },
            Some(stop) => {
                let ghost before = texts(parts@);
                parts.push(text_between(text, at, stop));
                proof {
                    assert(texts(parts@) =~= before.push(
                        text@.subrange(at as int, stop as int),
                    ));
                }
                assert(stop + closers@[k as int]@.len() <= text.len());
                at = stop + closers[k].len();
            },
        }
        k += 1;
    }
    proof {
        let all = vec_texts(closers@);
        assert(all.take(all.len() as int) =~= all);
    }
    Some((parts, at))
}

/// How a row begins, up to the identifier.
pub open spec fn row_open() -> Seq<char> {
    "<tr><td><a href=\"https://yonde.itazuraneko.org/novelhtml/"@
}

/// What follows the identifier.
pub open spec fn target_close() -> Seq<char> {
    ".html\">"@
}

/// What follows, in order, the title, the author, the publisher, the
/// artifact link, the artifact size and the publication date.
pub open spec fn field_closers() -> Seq<Seq<char>> {
    seq![
        "</a></td><td>"@,
        "</td><td>"@,
        "</td><td><a href=\""@,
        "\">"@,
        "</a></td><td>"@,
        "</td></tr>"@,
    ]
}

/// A row found in the text: its record before decoding, and the position
/// after the row.
pub struct RowMatch {
    pub raw: EntryView,
    pub end: int,
}

/// The row that begins at `start`, if one does.
pub open spec fn row_at(text: Seq<char>, start: int) -> Option<RowMatch> {
    let id_from = start + row_open().len();
    let id_to = digits_end(text, id_from);
    if occurs_at(text, row_open(), start) && id_from < id_to && occurs_at(
        text,
        target_close(),
        id_to,
    ) {
        match captures(text, id_to + target_close().len(), field_closers()) {
            None => None,
            Some(found) => Some(
                RowMatch {
                    raw: EntryView {
                        id: text.subrange(id_from, id_to),
                        title: found.texts[0],
                        author: found.texts[1],
                        publisher: found.texts[2],
                        epub_link: found.texts[3],
                        epub_size: found.texts[4],
                        publication_date: found.texts[5],
                    },
                    end: found.end,
                },
            ),
        }
    } else {
        None
    }
}

/// The digits run that starts at `from` holds digits only and ends inside
/// the text.
pub proof fn lemma_digits_end(text: Seq<char>, from: int)
    requires
        0 <= from <= text.len(),
    ensures
        from <= digits_end(text, from) <= text.len(),
        all_decimal_digits(text.subrange(from, digits_end(text, from))),
    decreases text.len() - from,
{
    if from < text.len() && is_decimal_digit(text[from]) {
        lemma_digits_end(text, from + 1);
        let to = digits_end(text, from);
        assert forall|i: int| 0 <= i < to - from implies is_decimal_digit(
            #[trigger] text.subrange(from, to)[i],
        ) by {
            if i > 0 {
                assert(text.subrange(from, to)[i] == text.subrange(from + 1, to)[i - 1]);
            }
        }
    }
}

/// A row lies inside the text, takes up at least one character, and its
/// identifier is a non-empty decimal numeral.
pub proof fn lemma_row_at(text: Seq<char>, start: int)
    ensures
        row_at(text, start) matches Some(row) ==> 0 <= start < row.end <= text.len()
            && row.raw.has_decimal_id(),
{
    if row_at(text, start) is Some {
        let id_from = start + row_open().len();
        let id_to = digits_end(text, id_from);
        lemma_digits_end(text, id_from);
        lemma_captures_bounds(text, id_to + target_close().len(), field_closers());
    }
}

/// `start` is where the first row at or after `from` begins.
pub open spec fn is_next_row(text: Seq<char>, from: int, start: int) -> bool {
    &&& from <= start
    &&& row_at(text, start) is Some
    &&& forall|j: int| from <= j < start ==> #[trigger] row_at(text, j) is None
}

/// The rows of the text at or after `from`, from left to right, each
/// search starting where the row before it ended.
pub open spec fn rows_from(text: Seq<char>, from: int) -> Seq<RowMatch>
    decreases text.len() - from,
    via rows_from_terminates
{
    if exists|start: int| is_next_row(text, from, start) {
        let start = choose|start: int| is_next_row(text, from, start);
        let row = row_at(text, start)->0;
        seq![row] + rows_from(text, row.end)
    } else {
        Seq::empty()
    }
}

#[via_fn]
proof fn rows_from_terminates(text: Seq<char>, from: int) {
    if exists|start: int| is_next_row(text, from, start) {
        let start = choose|start: int| is_next_row(text, from, start);
        lemma_row_at(text, start);
    }
}

/// The records of the rows, each decoded once.
pub open spec fn records_of(rows: Seq<RowMatch>) -> Seq<EntryView> {
    Seq::new(rows.len(), |i: int| decoded_record(rows[i].raw))
}

/// What extraction by pattern yields for a document.
pub open spec fn pattern_records(text: Seq<char>) -> Seq<EntryView> {
    records_of(rows_from(text, 0))
}

/// The rows from `from` on are the next row and the rows after it.
pub proof fn lemma_rows_from_next(text: Seq<char>, from: int, start: int)
    requires
        is_next_row(text, from, start),
    ensures
        rows_from(text, from) == seq![row_at(text, start)->0] + rows_from(
            text,
            row_at(text, start)->0.end,
        ),
{
    let chosen = choose|s: int| is_next_row(text, from, s);
    if chosen < start {
        assert(row_at(text, chosen) is None);
    }
    if start < chosen {
        assert(row_at(text, start) is None);
    }
}

/// Every row found by the pattern carries a non-empty decimal identifier.
pub proof fn lemma_rows_have_decimal_ids(text: Seq<char>, from: int)
    ensures
        forall|i: int|
            0 <= i < rows_from(text, from).len() ==> (#[trigger] rows_from(
                text,
                from,
            )[i]).raw.has_decimal_id(),
    decreases text.len() - from,
{
    if exists|start: int| is_next_row(text, from, start) {
        let start = choose|start: int| is_next_row(text, from, start);
        let row = row_at(text, start)->0;
        lemma_row_at(text, start);
        lemma_rows_have_decimal_ids(text, row.end);
        let rest = rows_from(text, row.end);
        assert forall|i: int| 0 <= i < rows_from(text, from).len() implies (#[trigger] rows_from(
            text,
            from,
        )[i]).raw.has_decimal_id() by {
            if i > 0 {
                assert(rows_from(text, from)[i] == rest[i - 1]);
            }
        }
    }
}

/// The fixed texts of a row, as characters ready for matching.
pub struct RowPattern {
    open: Vec<char>,
    target_close: Vec<char>,
    closers: Vec<Vec<char>>,
}

impl RowPattern {
    /// The pattern holds the texts of [`row_open`], [`target_close`] and
    /// [`field_closers`]. Every pattern does.
    pub closed spec fn holds_row_texts(&self) -> bool {
        &&& self.open@ == row_open()
        &&& self.target_close@ == target_close()
        &&& vec_texts(self.closers@) == field_closers()
    }

    #[verifier::type_invariant]
    spec fn always_holds_row_texts(self) -> bool {
        self.holds_row_texts()
    }

    /// The pattern of a row of the index page.
    pub fn new() -> (pattern: RowPattern)
        ensures
            pattern.holds_row_texts(),
    {
        let mut closers: Vec<Vec<char>> = Vec::new();
        closers.push(chars_of("</a></td><td>"));
        closers.push(chars_of("</td><td>"));
        closers.push(chars_of("</td><td><a href=\""));
        closers.push(chars_of("\">"));
        closers.push(chars_of("</a></td><td>"));
        closers.push(chars_of("</td></tr>"));
        assert(vec_texts(closers@) =~= field_closers());
        RowPattern {
            open: chars_of("<tr><td><a href=\"https://yonde.itazuraneko.org/novelhtml/"),
            target_close: chars_of(".html\">"),
            closers,
        }
    }

    /// Matches one row at `start`: its record before decoding, and the
    /// position after the row.
    pub fn match_row(&self, text: &Vec<char>, start: usize) -> (result: Option<(Entry, usize)>)
        ensures
            match row_at(text@, start as int) {
                Some(row) => result matches Some((raw, end)) && raw@ == row.raw && end == row.end,
                None => result is None,
            },
    {
        proof {
            use_type_invariant(self);
        }
        if !occurs(text, &self.open, start) {
            return None;
        }
        assert(start + self.open@.len() <= text.len());
        let id_from = start + self.open.len();
        let id_to = find_digits_end(text, id_from);
        if id_to == id_from || !occurs(text, &self.target_close, id_to) {
            return None;
        }
        assert(id_to + self.target_close@.len() <= text.len());
        match find_captures(text, id_to + self.target_close.len(), &self.closers) {
            None => None,
            Some((fields, end)) => {
                proof {
                    lemma_captures_bounds(
                        text@,
                        id_to + target_close().len(),
                        field_closers(),
                    );
                    assert(forall|i: int|
                        0 <= i < 6 ==> texts(fields@)[i] == (#[trigger] fields@[i])@);
                }
                let raw = Entry {
                    id: text_between(text, id_from, id_to),
                    title: fields[0].clone(),
                    author: fields[1].clone(),
                    publisher: fields[2].clone(),
                    epub_link: fields[3].clone(),
                    epub_size: fields[4].clone(),
                    publication_date: fields[5].clone(),
                };
                Some((raw, end))
            },
        }
    }
}

/// Extracts the records of every row of the document that is written in
/// the index page's own form.
pub fn pattern_entries(document: &str) -> (entries: Vec<Entry>)
    ensures
        entry_views(entries@) == pattern_records(document@),
{
    let text = chars_of(document);
    let pattern = RowPattern::new();
    let mut entries: Vec<Entry> = Vec::new();
    let ghost mut rows: Seq<RowMatch> = Seq::empty();
    let ghost mut from: int = 0;
    let mut start: usize = 0;
    proof {
        assert(rows + rows_from(text@, 0) =~= rows_from(text@, 0));
    }
    while start < text.len()
        invariant
            0 <= from <= start,
            rows_from(text@, 0) == rows + rows_from(text@, from),
            entries@.len() == rows.len(),
            entry_views(entries@) == records_of(rows),
            forall|j: int| from <= j < start ==> #[trigger] row_at(text@, j) is None,
        decreases text.len() - start,
    {
        match pattern.match_row(&text, start) {
            Some((raw, end)) => {
                proof {
                    let row = row_at(text@, start as int)->0;
                    lemma_row_at(text@, start as int);
                    lemma_rows_from_next(text@, from, start as int);
                    assert(rows + (seq![row] + rows_from(text@, row.end)) =~= rows.push(row)
                        + rows_from(text@, row.end));
                }
                let ghost found = rows;
                let ghost before = entries@;
                entries.push(decode_fields(&raw));
                proof {
                    let row = row_at(text@, start as int)->0;
                    rows = rows.push(row);
                    from = row.end;
                    assert forall|i: int| 0 <= i < rows.len() implies entry_views(entries@)[i]
                        == records_of(rows)[i] by {
                        if i < found.len() {
                            assert(entry_views(before)[i] == records_of(found)[i]);
                        }
                    }
                    assert(entry_views(entries@) =~= records_of(rows));
                }
                start = end;
            },
            None => {
                start += 1;
            },
        }
    }
    proof {
        assert(!exists|s: int| is_next_row(text@, from, s)) by {
            if exists|s: int| is_next_row(text@, from, s) {
                let s = choose|s: int| is_next_row(text@, from, s);
                lemma_row_at(text@, s);
                assert(row_at(text@, s) is None);
            }
        }
        assert(rows + rows_from(text@, from) =~= rows);
    }
    entries
}

} // verus!
