//! The upload pipeline of the content-addressed media store: hashing, conditional
//! re-encoding of images, the steps between the lookups, and what a retrieval
//! answers.

use vstd::prelude::*;
use crate::text::{find_last_char, has_char, last_index_of, same_text};

verus! {

/// File type recorded for a name that carries no extension.
pub const DEFAULT_FILE_TYPE: &'static str = "file";

/// File type recorded for every re-encoded image.
pub const NORMALIZED_IMAGE_TYPE: &'static str = "webp";

/// The extension of a file name: what follows its last dot, or `"file"` where the
/// name holds no dot.
pub open spec fn extension_of(name: Seq<char>) -> Seq<char> {
    if has_char(name, '.') {
        name.skip(last_index_of(name, '.') + 1)
    } else {
        DEFAULT_FILE_TYPE@
    }
}

/// Whether an extension marks a file that is re-encoded as an image. The match is
/// case-sensitive.
pub open spec fn is_image_extension(ext: Seq<char>) -> bool {
    ext == "png"@ || ext == "jpg"@ || ext == "jpeg"@
}

/// The extension of `name`.
pub fn file_extension(name: &str) -> (ext: String)
    ensures
        ext@ == extension_of(name@),
{
    match find_last_char(name, '.') {
        Some(i) => {
            let n: usize = name.unicode_len();
            let tail = name.substring_char(i + 1, n);
            assert(name@.subrange(i + 1, n as int) == name@.skip(i + 1));
            tail.to_owned()
        },
        None => DEFAULT_FILE_TYPE.to_owned(),
    }
}

/// Whether `ext` is one of `png`, `jpg` and `jpeg`.
pub fn image_extension(ext: &str) -> (r: bool)
    ensures
        r == is_image_extension(ext@),
{
    same_text(ext, "png") || same_text(ext, "jpg") || same_text(ext, "jpeg")
}

/// The BLAKE3 digest of `data`, written as lowercase hexadecimal text.
pub uninterp spec fn blake3_hex(data: Seq<u8>) -> Seq<char>;

/// Hashes `data` with `blake3::hash` and writes the digest out through its
/// `Display` impl, which gives its lowercase hexadecimal form. The digest depends
/// on the bytes alone, so the result is named `blake3_hex(data)`; nothing else is
/// claimed of it.
#[verifier::external_body]
fn content_hash(data: &[u8]) -> (hex: String)
    ensures
        hex@ == blake3_hex(data@),
{
    blake3::hash(data).to_string()
}

/// Why bytes could not be re-encoded as a normalized image.
#[derive(Clone, Copy, Debug, PartialEq, Eq, Structural)]
pub enum TranscodeFailure {
    /// The bytes do not decode as an image.
    Decode,
    /// The decoded image could not be written in the normalized format.
    Encode,
}

/// What comes of decoding `data` as an image and writing that image as WebP.
pub uninterp spec fn webp_transcoding(data: Seq<u8>) -> Result<Seq<u8>, TranscodeFailure>;

/// Decodes `data` with `image::load_from_memory`, which guesses the format from
/// the bytes, and writes the image with `DynamicImage::write_to` in
/// `ImageFormat::WebP` into a fresh buffer. A decoding error is reported as
/// `Decode`, an encoding error as `Encode`. Both steps depend on the bytes alone,
/// so the outcome is named `webp_transcoding(data)`; nothing else is claimed of it.
#[verifier::external_body]
fn transcode_to_webp(data: &[u8]) -> (r: Result<Vec<u8>, TranscodeFailure>)
    ensures
        match r {
            Ok(bytes) => webp_transcoding(data@) == Ok::<Seq<u8>, TranscodeFailure>(bytes@),
            Err(e) => webp_transcoding(data@) == Err::<Seq<u8>, TranscodeFailure>(e),
        },
{
    let Ok(img) = image::load_from_memory(data) else {
        return Err(TranscodeFailure::Decode);
    };
    let mut out = std::io::Cursor::new(Vec::<u8>::new());
    match img.write_to(&mut out, image::ImageFormat::WebP) {
        Ok(()) => Ok(out.into_inner()),
        Err(_) => Err(TranscodeFailure::Encode),
    }
}

/// Why an upload was not stored.
#[derive(Debug)]
pub enum FileHandleError {
    /// The file is named as an image and its bytes do not decode as one.
    InvalidImage,
    /// The decoded image could not be written in the normalized format.
    FailedToWriteAsWebP,
    /// The store refused a statement; the text is the store's message.
    SQLError(String),
}

/// Mathematical form of a `FileHandleError`.
pub enum FileHandleErrorView {
    InvalidImage,
    FailedToWriteAsWebP,
    SQLError(Seq<char>),
}

impl View for FileHandleError {
    type V = FileHandleErrorView;

    open spec fn view(&self) -> FileHandleErrorView {
        match self {
            FileHandleError::InvalidImage => FileHandleErrorView::InvalidImage,
            FileHandleError::FailedToWriteAsWebP => FileHandleErrorView::FailedToWriteAsWebP,
            FileHandleError::SQLError(text) => FileHandleErrorView::SQLError(text@),
        }
    }
}

/// The upload error that stands for a failed re-encoding.
pub open spec fn transcode_error(failure: TranscodeFailure) -> FileHandleErrorView {
    match failure {
        TranscodeFailure::Decode => FileHandleErrorView::InvalidImage,
        TranscodeFailure::Encode => FileHandleErrorView::FailedToWriteAsWebP,
    }
}

/// A media object that is ready to be stored but has no id yet.
#[derive(Debug)]
pub struct NewMedia {
    pub file_type: String,
    pub blob: Vec<u8>,
    pub original_hash: String,
    pub compressed_hash: String,
}

/// Mathematical form of a `NewMedia`.
pub struct NewMediaView {
    pub file_type: Seq<char>,
    pub blob: Seq<u8>,
    pub original_hash: Seq<char>,
    pub compressed_hash: Seq<char>,
}

impl View for NewMedia {
    type V = NewMediaView;

    open spec fn view(&self) -> NewMediaView {
        NewMediaView {
            file_type: self.file_type@,
            blob: self.blob@,
            original_hash: self.original_hash@,
            compressed_hash: self.compressed_hash@,
        }
    }
}

/// What is stored for bytes that pass through unchanged: the blob is the upload
/// itself, both hashes are the hash of the upload, and the type is the extension.
pub open spec fn passthrough_media(
    ext: Seq<char>,
    data: Seq<u8>,
    original_hash: Seq<char>,
) -> NewMediaView {
    NewMediaView { file_type: ext, blob: data, original_hash, compressed_hash: original_hash }
}

/// What is stored for a re-encoded image: the blob is the re-encoded form, keyed
/// by its own hash, and the type is the normalized image type.
pub open spec fn normalized_media(
    webp: Seq<u8>,
    original_hash: Seq<char>,
    compressed_hash: Seq<char>,
) -> NewMediaView {
    NewMediaView { file_type: NORMALIZED_IMAGE_TYPE@, blob: webp, original_hash, compressed_hash }
}

/// What the pipeline prepares for an upload named `name` with bytes `data` whose
/// original hash is `original_hash`.
pub open spec fn prepared_media(
    name: Seq<char>,
    data: Seq<u8>,
    original_hash: Seq<char>,
) -> Result<NewMediaView, FileHandleErrorView> {
    if is_image_extension(extension_of(name)) {
        match webp_transcoding(data) {
            Ok(webp) => Ok(normalized_media(webp, original_hash, blake3_hex(webp))),
            Err(failure) => Err(transcode_error(failure)),
        }
    } else {
        Ok(passthrough_media(extension_of(name), data, original_hash))
    }
}

/// Packs bytes that are stored as they came.
pub fn passthrough(ext: String, data: Vec<u8>, original_hash: String) -> (media: NewMedia)
    ensures
        media@ == passthrough_media(ext@, data@, original_hash@),
{
    let compressed_hash = original_hash.clone();
    NewMedia { file_type: ext, blob: data, original_hash, compressed_hash }
}

/// Packs the outcome of re-encoding an image: the re-encoded bytes with their
/// hash, or the upload error that the failure stands for.
pub fn normalized(
    transcoded: Result<(Vec<u8>, String), TranscodeFailure>,
    original_hash: String,
) -> (r: Result<NewMedia, FileHandleError>)
    ensures
        match transcoded {
            Ok((webp, hash)) => r matches Ok(media)
                && media@ == normalized_media(webp@, original_hash@, hash@),
            Err(failure) => r matches Err(e) && e@ == transcode_error(failure),
        },
{
    match transcoded {
        Ok((webp, hash)) => Ok(
            NewMedia {
                file_type: NORMALIZED_IMAGE_TYPE.to_owned(),
                blob: webp,
                original_hash,
                compressed_hash: hash,
            },
        ),
        Err(TranscodeFailure::Decode) => Err(FileHandleError::InvalidImage),
        Err(TranscodeFailure::Encode) => Err(FileHandleError::FailedToWriteAsWebP),
    }
}

/// Prepares an upload for storing: an image is re-encoded and hashed anew, any
/// other file passes through unchanged.
pub fn prepare_media(name: &str, data: Vec<u8>, original_hash: String) -> (r: Result<
    NewMedia,
    FileHandleError,
>)
    ensures
        match r {
            Ok(media) => prepared_media(name@, data@, original_hash@) == Ok::<
                NewMediaView,
                FileHandleErrorView,
            >(media@),
            Err(e) => prepared_media(name@, data@, original_hash@) == Err::<
                NewMediaView,
                FileHandleErrorView,
            >(e@),
        },
{
    let ext = file_extension(name);
    if image_extension(ext.as_str()) {
        let transcoded = match transcode_to_webp(data.as_slice()) {
            Ok(webp) => {
                let hash = content_hash(webp.as_slice());
                Ok((webp, hash))
            },
            Err(failure) => Err(failure),
        };
        normalized(transcoded, original_hash)
    } else {
        Ok(passthrough(ext, data, original_hash))
    }
}

/// The kind of entity that owns an attachment.
#[derive(Clone, Copy, Debug, PartialEq, Eq, Structural)]
pub enum AttachmentType {
    Announcement,
    Thread,
    Event,
}

/// The entity that owns an attachment: its kind and its id.
#[derive(Clone, Copy, Debug, PartialEq, Eq, Structural)]
pub enum AttachmentId {
    Announcement(i32),
    Thread(i32),
    Event(i32),
}

impl AttachmentId {
    /// The kind of the owning entity.
    pub open spec fn spec_kind(self) -> AttachmentType {
        match self {
            AttachmentId::Announcement(_) => AttachmentType::Announcement,
            AttachmentId::Thread(_) => AttachmentType::Thread,
            AttachmentId::Event(_) => AttachmentType::Event,
        }
    }

    /// The id of the owning entity within its kind.
    pub open spec fn spec_entity_id(self) -> i32 {
        match self {
            AttachmentId::Announcement(id) => id,
            AttachmentId::Thread(id) => id,
            AttachmentId::Event(id) => id,
        }
    }

    /// The tagged identifier of the entity `id` of kind `kind`.
    pub open spec fn spec_new(kind: AttachmentType, id: i32) -> AttachmentId {
        match kind {
            AttachmentType::Announcement => AttachmentId::Announcement(id),
            AttachmentType::Thread => AttachmentId::Thread(id),
            AttachmentType::Event => AttachmentId::Event(id),
        }
    }

    /// The tagged identifier of the entity `id` of kind `kind`.
    #[verifier::when_used_as_spec(spec_new)]
    pub fn new(kind: AttachmentType, id: i32) -> (target: AttachmentId)
        ensures
            target == AttachmentId::spec_new(kind, id),
    {
        match kind {
            AttachmentType::Announcement => AttachmentId::Announcement(id),
            AttachmentType::Thread => AttachmentId::Thread(id),
            AttachmentType::Event => AttachmentId::Event(id),
        }
    }

    #[verifier::when_used_as_spec(spec_kind)]
    pub fn kind(self) -> (kind: AttachmentType)
        ensures
            kind == self.spec_kind(),
    {
        match self {
            AttachmentId::Announcement(_) => AttachmentType::Announcement,
            AttachmentId::Thread(_) => AttachmentType::Thread,
            AttachmentId::Event(_) => AttachmentType::Event,
        }
    }

    #[verifier::when_used_as_spec(spec_entity_id)]
    pub fn entity_id(self) -> (id: i32)
        ensures
            id == self.spec_entity_id(),
    {
        match self {
            AttachmentId::Announcement(id) => id,
            AttachmentId::Thread(id) => id,
            AttachmentId::Event(id) => id,
        }
    }
}

/// What the upload pipeline does once the store was asked for the original hash.
#[derive(Debug)]
pub enum AfterOriginal {
    /// The upload is over: with the id of the object found, or with the failure of
    /// the re-encoding.
    Finished(Result<i32, FileHandleError>),
    /// Ask the store for an object whose compressed hash is that of the media.
    FindCompressed(NewMedia),
}

/// What the upload pipeline does once the store was asked for the compressed hash.
#[derive(Debug)]
pub enum AfterCompressed {
    /// The upload is over with the id of the object found; no second blob is kept.
    Finished(i32),
    /// Store the media as a new object.
    Insert(NewMedia),
}

/// An upload whose original hash is known and which the store has not been asked
/// about yet.
#[derive(Debug)]
pub struct PendingUpload {
    pub name: String,
    pub data: Vec<u8>,
    pub original_hash: String,
}

/// Starts the pipeline for the bytes `data` uploaded under `name`: the store is to
/// be asked first for an object whose original hash is the content hash of the
/// raw bytes.
pub fn begin_upload(name: String, data: Vec<u8>) -> (pending: PendingUpload)
    ensures
        pending.name == name,
        pending.data == data,
        pending.original_hash@ == blake3_hex(data@),
{
    let original_hash = content_hash(data.as_slice());
    PendingUpload { name, data, original_hash }
}

/// The step after the store was asked for an object with the upload's original
/// hash. A hit ends the upload with the stored id, before the name is even looked
/// at. After a miss the upload is prepared: a failure ends it, otherwise the store
/// is to be asked for the compressed hash.
pub fn after_original_lookup(pending: PendingUpload, found: Option<i32>) -> (step: AfterOriginal)
    ensures
        match found {
            Some(id) => step matches AfterOriginal::Finished(Ok(got)) && got == id,
            None => match prepared_media(pending.name@, pending.data@, pending.original_hash@) {
                Ok(media) => step matches AfterOriginal::FindCompressed(m) && m@ == media,
                Err(e) => step matches AfterOriginal::Finished(Err(got)) && got@ == e,
            },
        },
{
    match found {
        Some(id) => AfterOriginal::Finished(Ok(id)),
        None => match prepare_media(pending.name.as_str(), pending.data, pending.original_hash) {
            Ok(media) => AfterOriginal::FindCompressed(media),
            Err(e) => AfterOriginal::Finished(Err(e)),
        },
    }
}

/// The step after the store was asked for an object with the compressed hash of
/// `media`: a hit ends the upload with the stored id, after a miss the media is to
/// be inserted.
pub fn after_compressed_lookup(media: NewMedia, found: Option<i32>) -> (step: AfterCompressed)
    ensures
        match found {
            Some(id) => step == AfterCompressed::Finished(id),
            None => step matches AfterCompressed::Insert(m) && m@ == media@,
        },
{
    match found {
        Some(id) => AfterCompressed::Finished(id),
        None => AfterCompressed::Insert(media),
    }
}

/// The outcome of an upload whose insert the store answered with `inserted`: the
/// new id, or the store's message as an `SQLError`.
pub fn after_insert(inserted: Result<i32, String>) -> (outcome: Result<i32, FileHandleError>)
    ensures
        match inserted {
            Ok(id) => outcome == Ok::<i32, FileHandleError>(id),
            Err(text) => outcome matches Err(e) && e@ == FileHandleErrorView::SQLError(text@),
        },
{
    match inserted {
        Ok(id) => Ok(id),
        Err(text) => Err(FileHandleError::SQLError(text)),
    }
}

/// Cache directive of every media response: stored content never changes.
pub const CACHE_CONTROL: &'static str = "max-age=31536000";

/// Content type of the normalized image type.
pub const NORMALIZED_IMAGE_CONTENT_TYPE: &'static str = "image/webp";

/// Where a request for an attachment is sent when nothing is bound to the entity.
pub const NOT_FOUND_LOCATION: &'static str = "/404";

/// Start of the location under which a stored object is retrieved by its hash.
pub const VIEW_LOCATION_PREFIX: &'static str = "/media/view?hash=";

/// The content type under which an object of type `file_type` is served: the
/// normalized image type has a fixed one, every other type is passed on as it is.
pub open spec fn content_type_of(file_type: Seq<char>) -> Seq<char> {
    if file_type == NORMALIZED_IMAGE_TYPE@ {
        NORMALIZED_IMAGE_CONTENT_TYPE@
    } else {
        file_type
    }
}

/// The content type under which an object of type `file_type` is served.
pub fn content_type_for(file_type: &str) -> (content_type: String)
    ensures
        content_type@ == content_type_of(file_type@),
{
    if same_text(file_type, NORMALIZED_IMAGE_TYPE) {
        NORMALIZED_IMAGE_CONTENT_TYPE.to_owned()
    } else {
        file_type.to_owned()
    }
}

/// A media response: the stored bytes with the two headers that go with them.
#[derive(Debug)]
pub struct FileResponse {
    pub cache_control: String,
    pub content_type: String,
    pub body: Vec<u8>,
}

/// Mathematical form of a `FileResponse`.
pub struct FileResponseView {
    pub cache_control: Seq<char>,
    pub content_type: Seq<char>,
    pub body: Seq<u8>,
}

impl View for FileResponse {
    type V = FileResponseView;

    open spec fn view(&self) -> FileResponseView {
        FileResponseView {
            cache_control: self.cache_control@,
            content_type: self.content_type@,
            body: self.body@,
        }
    }
}

/// The response that serves the bytes `blob` of an object of type `file_type`.
pub open spec fn response_for(file_type: Seq<char>, blob: Seq<u8>) -> FileResponseView {
    FileResponseView {
        cache_control: CACHE_CONTROL@,
        content_type: content_type_of(file_type),
        body: blob,
    }
}

/// The response that serves the bytes `blob` of an object of type `file_type`:
/// a long-lived cache directive, the content type of the file type, the bytes.
pub fn file_response(file_type: &str, blob: Vec<u8>) -> (response: FileResponse)
    ensures
        response@ == response_for(file_type@, blob@),
{
    FileResponse {
        cache_control: CACHE_CONTROL.to_owned(),
        content_type: content_type_for(file_type),
        body: blob,
    }
}

/// Where a request for an attachment is sent: to the retrieval of the hash that
/// the attachment resolved to, or to the not-found page.
pub open spec fn redirect_for(hash: Option<Seq<char>>) -> Seq<char> {
    match hash {
        Some(text) => VIEW_LOCATION_PREFIX@ + text,
        None => NOT_FOUND_LOCATION@,
    }
}

/// Where a request for an attachment is sent, given what it resolved to.
pub fn attachment_redirect(hash: Option<String>) -> (location: String)
    ensures
        location@ == redirect_for(
            match hash {
                Some(text) => Some(text@),
                None => None,
            },
        ),
{
    match hash {
        Some(text) => {
            let mut location = VIEW_LOCATION_PREFIX.to_owned();
            location.append(text.as_str());
            location
        },
        None => NOT_FOUND_LOCATION.to_owned(),
    }
}

} // verus!
