//! The ways a run can fail before any download starts.

use vstd::prelude::*;

verus! {

/// The two cells of a group that must each carry a hyperlink.
#[derive(Debug, Clone, Copy, PartialEq, Eq, Structural)]
pub enum LinkCell {
    /// Cell 0: the link to the entry's page, from which the identifier comes.
    Index,
    /// Cell 3: the link to the downloadable artifact.
    Artifact,
}

impl LinkCell {
    /// Position of the cell inside its group.
    pub open spec fn spec_position(self) -> int {
        match self {
            LinkCell::Index => 0,
            LinkCell::Artifact => 3,
        }
    }

    /// Position of the cell inside its group.
    pub fn position(self) -> (p: usize)
        ensures
            p == self.spec_position(),
    {
        match self {
            LinkCell::Index => 0,
            LinkCell::Artifact => 3,
        }
    }
}

/// A group of cells from which no record can be made: the named cell has no
/// hyperlink with a target.
#[derive(Debug, Clone, Copy, PartialEq, Eq, Structural)]
pub struct MalformedEntry {
    /// Index of the group in the document, counting from zero.
    pub group: usize,
    /// The cell that lacks its hyperlink.
    pub cell: LinkCell,
}

/// The mathematical value of a [`MalformedEntry`].
pub struct MalformedGroup {
    pub group: int,
    pub cell: LinkCell,
}

impl View for MalformedEntry {
    type V = MalformedGroup;

    open spec fn view(&self) -> MalformedGroup {
        MalformedGroup { group: self.group as int, cell: self.cell }
    }
}

/// Why stored records could not be read back.
#[derive(Debug, Clone, Copy, PartialEq, Eq, Structural)]
pub enum RecordFormatError {
    /// The text is not readable as delimited records at all.
    Unreadable,
    /// The row with this index does not have exactly seven fields.
    FieldCount { row: usize },
}

/// Failures that abort a run. A failed fetch is not among them: it is
/// counted by the download tracker and the batch goes on.
#[derive(Debug, Clone, Copy, PartialEq, Eq, Structural)]
pub enum BackupError {
    /// The index page holds a group without a required hyperlink. Extraction
    /// stops at the first such group and yields no records.
    MalformedIndexDocument(MalformedEntry),
    /// The record file cannot be decoded.
    RecordFormatError(RecordFormatError),
    /// The download directory could not be created.
    DirectoryError,
}

impl BackupError {
    /// A one-line description for the operator.
    pub fn message(&self) -> (text: String)
        ensures
            text@ == self.spec_message(),
    {
        match self {
            BackupError::MalformedIndexDocument(m) => match m.cell {
                LinkCell::Index => String::from_str(
                    "malformed index document: a group has no link to its entry page",
                ),
                LinkCell::Artifact => String::from_str(
                    "malformed index document: a group has no link to its artifact",
                ),
            },
            BackupError::RecordFormatError(RecordFormatError::Unreadable) => String::from_str(
                "record format error: not readable as delimited records",
            ),
            BackupError::RecordFormatError(RecordFormatError::FieldCount { .. }) => String::from_str(
                "record format error: a row does not have seven fields",
            ),
            BackupError::DirectoryError => String::from_str(
                "directory error: the download directory cannot be created",
            ),
        }
    }

    /// The text that [`BackupError::message`] returns.
    pub open spec fn spec_message(&self) -> Seq<char> {
        match self {
            BackupError::MalformedIndexDocument(m) => match m.cell {
                LinkCell::Index =>
                    "malformed index document: a group has no link to its entry page"@,
                LinkCell::Artifact =>
                    "malformed index document: a group has no link to its artifact"@,
            },
            BackupError::RecordFormatError(RecordFormatError::Unreadable) =>
                "record format error: not readable as delimited records"@,
            BackupError::RecordFormatError(RecordFormatError::FieldCount { .. }) =>
                "record format error: a row does not have seven fields"@,
            BackupError::DirectoryError =>
                "directory error: the download directory cannot be created"@,
        }
    }
}

} // verus!
