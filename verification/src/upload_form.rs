//! The multipart form of an upload request: which fields count, what each must
//! hold, and what the client is told.

use vstd::prelude::*;
use crate::file_uploads::{AttachmentId, AttachmentType};
use crate::text::{parse_i32, parsed_i32, same_text};

verus! {

/// Name of the form field that carries the file.
pub const FILE_FIELD: &'static str = "file";

/// What the client is told once an upload was accepted for processing.
pub const UPLOAD_ACCEPTED: &'static str = "Upload done.";

/// What the client is told when the file field names no file.
pub const FILE_NAME_MISSING_IN_HEADERS: &'static str = "File name not found in headers";

/// What the client is told when the bytes of the file field could not be read.
pub const FILE_DATA_UNREADABLE: &'static str = "Failed to get data";

/// What the client is told when the form held no file field.
pub const FILE_NAME_MISSING: &'static str = "File name not found";

/// What the client is told when the form held a file name without bytes.
pub const FILE_DATA_MISSING: &'static str = "File data not found";

/// What the client is told when the form named no owning entity.
pub const TARGET_MISSING: &'static str = "Attachment ID not found";

impl AttachmentType {
    /// The name of the form field, and of the column of the binding table, that
    /// holds the id of an entity of this kind.
    pub open spec fn spec_id_name(self) -> Seq<char> {
        match self {
            AttachmentType::Announcement => "announcement_id"@,
            AttachmentType::Thread => "thread_id"@,
            AttachmentType::Event => "event_id"@,
        }
    }

    /// The name of the binding table of this kind.
    pub open spec fn spec_table_name(self) -> Seq<char> {
        match self {
            AttachmentType::Announcement => "announcement_media"@,
            AttachmentType::Thread => "thread_media"@,
            AttachmentType::Event => "event_media"@,
        }
    }

    /// The name of the form field, and of the column of the binding table, that
    /// holds the id of an entity of this kind.
    pub fn id_name(self) -> (name: &'static str)
        ensures
            name@ == self.spec_id_name(),
    {
        match self {
            AttachmentType::Announcement => "announcement_id",
            AttachmentType::Thread => "thread_id",
            AttachmentType::Event => "event_id",
        }
    }

    /// The name of the binding table of this kind. Statements on binding tables
    /// take their table name from here and from nowhere else.
    pub fn table_name(self) -> (name: &'static str)
        ensures
            name@ == self.spec_table_name(),
    {
        match self {
            AttachmentType::Announcement => "announcement_media",
            AttachmentType::Thread => "thread_media",
            AttachmentType::Event => "event_media",
        }
    }
}

/// What a form field is for, by its name.
#[derive(Clone, Copy, Debug, PartialEq, Eq, Structural)]
pub enum FieldRole {
    /// The field carries the file.
    File,
    /// The field carries the id of the owning entity of the given kind.
    Target(AttachmentType),
    /// The field is passed over unread.
    Ignored,
}

/// What a field named `name` is for. A field without a name is passed over.
pub open spec fn role_of(name: Option<Seq<char>>) -> FieldRole {
    match name {
        None => FieldRole::Ignored,
        Some(text) => if text == FILE_FIELD@ {
            FieldRole::File
        } else if text == AttachmentType::Announcement.spec_id_name() {
            FieldRole::Target(AttachmentType::Announcement)
        } else if text == AttachmentType::Thread.spec_id_name() {
            FieldRole::Target(AttachmentType::Thread)
        } else if text == AttachmentType::Event.spec_id_name() {
            FieldRole::Target(AttachmentType::Event)
        } else {
            FieldRole::Ignored
        },
    }
}

/// What a field named `name` is for.
pub fn field_role(name: Option<&str>) -> (role: FieldRole)
    ensures
        role == role_of(
            match name {
                Some(text) => Some(text@),
                None => None,
            },
        ),
{
    match name {
        None => FieldRole::Ignored,
        Some(text) => {
            if same_text(text, FILE_FIELD) {
                FieldRole::File
            } else if same_text(text, AttachmentType::Announcement.id_name()) {
                FieldRole::Target(AttachmentType::Announcement)
            } else if same_text(text, AttachmentType::Thread.id_name()) {
                FieldRole::Target(AttachmentType::Thread)
            } else if same_text(text, AttachmentType::Event.id_name()) {
                FieldRole::Target(AttachmentType::Event)
            } else {
                FieldRole::Ignored
            }
        },
    }
}

/// One field of the form, read as its role asks.
#[derive(Debug)]
pub enum FormField {
    /// The file field: the file name from its headers, where it has one, and its
    /// bytes, where they could be read.
    File { file_name: Option<String>, data: Option<Vec<u8>> },
    /// The id field of an entity kind: its text, where it could be read.
    Target { kind: AttachmentType, text: Option<String> },
    /// Any other field.
    Ignored,
}

/// What has been gathered from the fields of a form so far.
#[derive(Debug)]
pub struct UploadForm {
    pub attachment_id: Option<AttachmentId>,
    pub file_name: Option<String>,
    pub file_data: Option<Vec<u8>>,
}

/// An upload that is ready for the pipeline.
#[derive(Debug)]
pub struct UploadRequest {
    pub file_name: String,
    pub data: Vec<u8>,
    pub target: AttachmentId,
}

/// What the client is told when the id field of `kind` could not be read.
pub open spec fn unreadable_target_message(kind: AttachmentType) -> Seq<char> {
    "Failed to get '"@ + kind.spec_id_name() + "'"@
}

/// What the client is told when the id field of `kind` holds no number.
pub open spec fn unparsable_target_message(kind: AttachmentType) -> Seq<char> {
    "Failed to parse '"@ + kind.spec_id_name() + "' as a number"@
}

/// What the client is told when the id field of `kind` could not be read.
pub fn unreadable_target(kind: AttachmentType) -> (message: String)
    ensures
        message@ == unreadable_target_message(kind),
{
    let mut message = "Failed to get '".to_owned();
    message.append(kind.id_name());
    message.append("'");
    message
}

/// What the client is told when the id field of `kind` holds no number.
pub fn unparsable_target(kind: AttachmentType) -> (message: String)
    ensures
        message@ == unparsable_target_message(kind),
{
    let mut message = "Failed to parse '".to_owned();
    message.append(kind.id_name());
    message.append("' as a number");
    message
}

/// What the id field of `kind` with the text `text` names: the entity whose id
/// the text denotes, or what the client is told instead.
pub open spec fn target_of(kind: AttachmentType, text: Option<Seq<char>>) -> Result<
    AttachmentId,
    Seq<char>,
> {
    match text {
        None => Err(unreadable_target_message(kind)),
        Some(digits) => match parsed_i32(digits) {
            Some(id) => Ok(AttachmentId::spec_new(kind, id)),
            None => Err(unparsable_target_message(kind)),
        },
    }
}

/// The entity that the id field of `kind` names, given the number that its text
/// was read as: `None` where the field could not be read, `Some(None)` where its
/// text denotes no number.
pub fn target_from(kind: AttachmentType, number: Option<Option<i32>>) -> (target: Result<
    AttachmentId,
    String,
>)
    ensures
        match number {
            None => target matches Err(message) && message@ == unreadable_target_message(kind),
            Some(None) => target matches Err(message) && message@ == unparsable_target_message(
                kind,
            ),
            Some(Some(id)) => target == Ok::<AttachmentId, String>(
                AttachmentId::spec_new(kind, id),
            ),
        },
{
    match number {
        None => Err(unreadable_target(kind)),
        Some(None) => Err(unparsable_target(kind)),
        Some(Some(id)) => Ok(AttachmentId::new(kind, id)),
    }
}

/// The entity that the id field of `kind` with the text `text` names.
pub fn read_target(kind: AttachmentType, text: Option<&str>) -> (target: Result<
    AttachmentId,
    String,
>)
    ensures
        match target {
            Ok(id) => target_of(kind, option_text(text)) == Ok::<AttachmentId, Seq<char>>(id),
            Err(message) => target_of(kind, option_text(text)) == Err::<AttachmentId, Seq<char>>(
                message@,
            ),
        },
{
    let number = match text {
        Some(digits) => Some(parse_i32(digits)),
        None => None,
    };
    target_from(kind, number)
}

/// The characters of an optional string slice.
pub open spec fn option_text(text: Option<&str>) -> Option<Seq<char>> {
    match text {
        Some(t) => Some(t@),
        None => None,
    }
}

impl UploadForm {
    /// A form of which no field has been read.
    pub fn new() -> (form: UploadForm)
        ensures
            form.attachment_id is None,
            form.file_name is None,
            form.file_data is None,
    {
        UploadForm { attachment_id: None, file_name: None, file_data: None }
    }

    /// Takes in the next field of the form. A later field of the same role
    /// replaces an earlier one. An error is what the client is told, and ends the
    /// request.
    pub fn accept(&mut self, field: FormField) -> (accepted: Result<(), String>)
        ensures
            match field {
                FormField::Ignored => accepted is Ok && *final(self) == *old(self),
                FormField::File { file_name: None, data } => {
                    &&& accepted matches Err(message)
                    &&& message@ == FILE_NAME_MISSING_IN_HEADERS@
                    &&& *final(self) == *old(self)
                },
                FormField::File { file_name: Some(name), data: None } => {
                    &&& accepted matches Err(message)
                    &&& message@ == FILE_DATA_UNREADABLE@
                    &&& final(self).file_name == Some(name)
                    &&& final(self).file_data == old(self).file_data
                    &&& final(self).attachment_id == old(self).attachment_id
                },
                FormField::File { file_name: Some(name), data: Some(bytes) } => {
                    &&& accepted is Ok
                    &&& final(self).file_name == Some(name)
                    &&& final(self).file_data == Some(bytes)
                    &&& final(self).attachment_id == old(self).attachment_id
                },
                FormField::Target { kind, text } => {
                    &&& final(self).file_name == old(self).file_name
                    &&& final(self).file_data == old(self).file_data
                    &&& match target_of(
                        kind,
                        match text {
                            Some(t) => Some(t@),
                            None => None,
                        },
                    ) {
                        Ok(target) => accepted is Ok && final(self).attachment_id == Some(target),
                        Err(told) => accepted matches Err(message) && message@ == told
                            && final(self).attachment_id == old(self).attachment_id,
                    }
                },
            },
    {
        match field {
            FormField::Ignored => Ok(()),
            FormField::File { file_name, data } => {
                match file_name {
                    None => Err(FILE_NAME_MISSING_IN_HEADERS.to_owned()),
                    Some(name) => {
                        self.file_name = Some(name);
                        match data {
                            None => Err(FILE_DATA_UNREADABLE.to_owned()),
                            Some(bytes) => {
                                self.file_data = Some(bytes);
                                Ok(())
                            },
                        }
                    },
                }
            },
            FormField::Target { kind, text } => {
                let read = match &text {
                    Some(t) => read_target(kind, Some(t.as_str())),
                    None => read_target(kind, None),
                };
                match read {
                    Ok(target) => {
                        self.attachment_id = Some(target);
                        Ok(())
                    },
                    Err(message) => Err(message),
                }
            },
        }
    }

    /// Closes the form once every field was taken in: the upload that it asks
    /// for, or what the client is told is missing. The file name is looked for
    /// first, then the bytes, then the owning entity.
    pub fn finish(self) -> (request: Result<UploadRequest, String>)
        ensures
            match (self.file_name, self.file_data, self.attachment_id) {
                (None, _, _) => request matches Err(message) && message@ == FILE_NAME_MISSING@,
                (Some(_), None, _) => request matches Err(message) && message@
                    == FILE_DATA_MISSING@,
                (Some(_), Some(_), None) => request matches Err(message) && message@
                    == TARGET_MISSING@,
                (Some(name), Some(bytes), Some(target)) => request matches Ok(upload)
                    && upload.file_name == name && upload.data == bytes && upload.target
                    == target,
            },
    {
        let Some(file_name) = self.file_name else {
            return Err(FILE_NAME_MISSING.to_owned());
        };
        let Some(data) = self.file_data else {
            return Err(FILE_DATA_MISSING.to_owned());
        };
        let Some(target) = self.attachment_id else {
            return Err(TARGET_MISSING.to_owned());
        };
        Ok(UploadRequest { file_name, data, target })
    }
}

} // verus!
