//! Receiving an uploaded file: reading the multipart form, and how the file
//! is written when an upload resumes an earlier one.

use vstd::prelude::*;

use crate::text::{parse_decimal, parse_unsigned, same_text};

verus! {

/// The fields of the upload form.
#[derive(Clone, Copy, Debug, PartialEq, Eq)]
pub enum UploadField {
    TransferId,
    FileId,
    FileName,
    RelativePath,
    /// Where in the file this upload starts (resumed uploads).
    Offset,
    /// The file's bytes.
    File,
    /// Any other field, which is skipped.
    Other,
}

/// The field that a form part's name designates.
pub fn classify_upload_field(name: &str) -> (f: UploadField)
    ensures
        f == (if name@ == "transfer_id"@ {
            UploadField::TransferId
        } else if name@ == "file_id"@ {
            UploadField::FileId
        } else if name@ == "file_name"@ {
            UploadField::FileName
        } else if name@ == "relative_path"@ {
            UploadField::RelativePath
        } else if name@ == "offset"@ {
            UploadField::Offset
        } else if name@ == "file"@ {
            UploadField::File
        } else {
            UploadField::Other
        }),
{
    if same_text(name, "transfer_id") {
        UploadField::TransferId
    } else if same_text(name, "file_id") {
        UploadField::FileId
    } else if same_text(name, "file_name") {
        UploadField::FileName
    } else if same_text(name, "relative_path") {
        UploadField::RelativePath
    } else if same_text(name, "offset") {
        UploadField::Offset
    } else if same_text(name, "file") {
        UploadField::File
    } else {
        UploadField::Other
    }
}

/// What has been read of an upload form so far.
pub struct UploadForm {
    pub transfer_id: String,
    pub file_id: String,
    pub file_name: String,
    pub relative_path: String,
    pub offset: u64,
    /// The bytes of file data received in this request.
    pub received_size: u64,
}

/// The offset that an `offset` field's text gives: the number it reads as,
/// or 0 where it does not read as a `u64`.
pub open spec fn offset_value(text: Seq<char>) -> u64 {
    match parse_unsigned(text, u64::MAX as nat) {
        Some(v) => v as u64,
        None => 0,
    }
}

impl UploadForm {
    /// Nothing read yet: empty texts, offset 0, no bytes received.
    pub fn new() -> (f: UploadForm)
        ensures
            f.transfer_id@ == Seq::<char>::empty(),
            f.file_id@ == Seq::<char>::empty(),
            f.file_name@ == Seq::<char>::empty(),
            f.relative_path@ == Seq::<char>::empty(),
            f.offset == 0,
            f.received_size == 0,
    {
        UploadForm {
            transfer_id: String::new(),
            file_id: String::new(),
            file_name: String::new(),
            relative_path: String::new(),
            offset: 0,
            received_size: 0,
        }
    }

    /// Records the text of a text field; the offset is read as a number.
    /// The file field and unknown fields leave the form as it was.
    pub fn set_text(&mut self, field: UploadField, text: String)
        ensures
            final(self).transfer_id == (if field == UploadField::TransferId {
                text
            } else {
                old(self).transfer_id
            }),
            final(self).file_id == (if field == UploadField::FileId {
                text
            } else {
                old(self).file_id
            }),
            final(self).file_name == (if field == UploadField::FileName {
                text
            } else {
                old(self).file_name
            }),
            final(self).relative_path == (if field == UploadField::RelativePath {
                text
            } else {
                old(self).relative_path
            }),
            final(self).offset == (if field == UploadField::Offset {
                offset_value(text@)
            } else {
                old(self).offset
            }),
            final(self).received_size == old(self).received_size,
    {
        match field {
            UploadField::TransferId => {
                self.transfer_id = text;
            },
            UploadField::FileId => {
                self.file_id = text;
            },
            UploadField::FileName => {
                self.file_name = text;
            },
            UploadField::RelativePath => {
                self.relative_path = text;
            },
            UploadField::Offset => {
                self.offset = match parse_decimal(text.as_str(), u64::MAX) {
                    Some(v) => v,
                    None => 0,
                };
            },
            _ => {},
        }
    }

    /// Counts a chunk of file data.
    pub fn add_chunk(&mut self, len: u64)
        requires
            old(self).received_size + len <= u64::MAX,
        ensures
            final(self).received_size == old(self).received_size + len,
            final(self).transfer_id == old(self).transfer_id,
            final(self).file_id == old(self).file_id,
            final(self).file_name == old(self).file_name,
            final(self).relative_path == old(self).relative_path,
            final(self).offset == old(self).offset,
    {
        self.received_size = self.received_size + len;
    }

    /// How much of the file the receiver holds after this upload: the
    /// offset it started at and the bytes received.
    pub fn total_received(&self) -> (t: u64)
        requires
            self.offset + self.received_size <= u64::MAX,
        ensures
            t == self.offset + self.received_size,
    {
        self.offset + self.received_size
    }
}

/// How the uploaded bytes are written.
#[derive(Clone, Copy, Debug, PartialEq, Eq)]
pub enum WriteMode {
    /// Into the existing file, starting at `offset`.
    Resume { offset: u64 },
    /// Into a new (or emptied) file, from the start.
    Create,
}

/// An upload with a nonzero offset into a file that exists resumes it;
/// anything else writes the file afresh.
pub fn write_mode(offset: u64, file_exists: bool) -> (m: WriteMode)
    ensures
        m == (if offset > 0 && file_exists {
            WriteMode::Resume { offset }
        } else {
            WriteMode::Create
        }),
{
    if offset > 0 && file_exists {
        WriteMode::Resume { offset }
    } else {
        WriteMode::Create
    }
}

} // verus!
