//! The content-addressed media store held in memory: stored objects keyed by the
//! hashes of their content, and the tables that bind them to the entities that own
//! them.

use vstd::prelude::*;
use crate::file_uploads::{
    after_compressed_lookup, after_insert, after_original_lookup, attachment_redirect,
    begin_upload, blake3_hex, extension_of, file_response, is_image_extension, prepared_media,
    redirect_for, response_for, AfterCompressed, AfterOriginal, AttachmentId, AttachmentType,
    FileHandleError, FileHandleErrorView, FileResponse, NewMedia, NewMediaView, CACHE_CONTROL,
    NORMALIZED_IMAGE_CONTENT_TYPE, NORMALIZED_IMAGE_TYPE,
};
use crate::text::same_text;

verus! {

/// A stored media object.
#[derive(Debug)]
pub struct MediaObject {
    pub id: i32,
    pub file_type: String,
    pub blob: Vec<u8>,
    pub original_hash: String,
    pub compressed_hash: String,
}

/// Mathematical form of a `MediaObject`.
pub struct MediaObjectView {
    pub id: int,
    pub file_type: Seq<char>,
    pub blob: Seq<u8>,
    pub original_hash: Seq<char>,
    pub compressed_hash: Seq<char>,
}

impl View for MediaObject {
    type V = MediaObjectView;

    open spec fn view(&self) -> MediaObjectView {
        MediaObjectView {
            id: self.id as int,
            file_type: self.file_type@,
            blob: self.blob@,
            original_hash: self.original_hash@,
            compressed_hash: self.compressed_hash@,
        }
    }
}

/// The object that `media` becomes when it is stored under `id`.
pub open spec fn stored_as(media: NewMediaView, id: int) -> MediaObjectView {
    MediaObjectView {
        id,
        file_type: media.file_type,
        blob: media.blob,
        original_hash: media.original_hash,
        compressed_hash: media.compressed_hash,
    }
}

/// One row of a binding table: the entity `entity_id` owns the media `media_id`.
#[derive(Clone, Copy, Debug, PartialEq, Eq, Structural)]
pub struct Binding {
    pub entity_id: i32,
    pub media_id: i32,
}

/// Whether `j` is the position of the most recent binding of `entity_id` in `rows`.
pub open spec fn is_latest_binding(rows: Seq<Binding>, entity_id: i32, j: int) -> bool {
    &&& 0 <= j < rows.len()
    &&& rows[j].entity_id == entity_id
    &&& forall|k: int| j < k < rows.len() ==> rows[k].entity_id != entity_id
}

/// Whether `rows` binds anything to `entity_id`.
pub open spec fn has_binding(rows: Seq<Binding>, entity_id: i32) -> bool {
    exists|j: int| 0 <= j < rows.len() && rows[j].entity_id == entity_id
}

/// The most recent binding of `entity_id` in `rows`, where there is one.
pub open spec fn latest_binding(rows: Seq<Binding>, entity_id: i32) -> Binding {
    rows[choose|j: int| is_latest_binding(rows, entity_id, j)]
}

/// The most recent binding of an entity is unique, so `latest_binding` names it.
pub proof fn lemma_latest_binding(rows: Seq<Binding>, entity_id: i32, j: int)
    requires
        is_latest_binding(rows, entity_id, j),
    ensures
        has_binding(rows, entity_id),
        latest_binding(rows, entity_id) == rows[j],
{
    let k = choose|k: int| is_latest_binding(rows, entity_id, k);
    assert(is_latest_binding(rows, entity_id, k));
    if k < j {
        assert(rows[j].entity_id != entity_id);
    } else if j < k {
        assert(rows[k].entity_id != entity_id);
    }
}

/// Mathematical form of a `MediaStore`: the upload table and the three binding
/// tables, each in insertion order.
pub struct MediaStoreView {
    pub uploads: Seq<MediaObjectView>,
    pub announcement_media: Seq<Binding>,
    pub thread_media: Seq<Binding>,
    pub event_media: Seq<Binding>,
}

impl MediaStoreView {
    /// The binding table of the entity kind `kind`.
    pub open spec fn bindings(self, kind: AttachmentType) -> Seq<Binding> {
        match kind {
            AttachmentType::Announcement => self.announcement_media,
            AttachmentType::Thread => self.thread_media,
            AttachmentType::Event => self.event_media,
        }
    }

    /// Whether an object with the original hash `hash` is stored.
    pub open spec fn has_original(self, hash: Seq<char>) -> bool {
        exists|i: int| 0 <= i < self.uploads.len() && self.uploads[i].original_hash == hash
    }

    /// A stored object with the original hash `hash`, where there is one. In a
    /// well-formed store there is at most one.
    pub open spec fn by_original(self, hash: Seq<char>) -> MediaObjectView {
        self.uploads[choose|i: int|
            0 <= i < self.uploads.len() && self.uploads[i].original_hash == hash]
    }

    /// Whether an object with the compressed hash `hash` is stored.
    pub open spec fn has_compressed(self, hash: Seq<char>) -> bool {
        exists|i: int| 0 <= i < self.uploads.len() && self.uploads[i].compressed_hash == hash
    }

    /// A stored object with the compressed hash `hash`, where there is one. In a
    /// well-formed store there is at most one.
    pub open spec fn by_compressed(self, hash: Seq<char>) -> MediaObjectView {
        self.uploads[choose|i: int|
            0 <= i < self.uploads.len() && self.uploads[i].compressed_hash == hash]
    }

    /// Whether an object with the id `id` is stored.
    pub open spec fn has_id(self, id: int) -> bool {
        1 <= id <= self.uploads.len()
    }

    /// Whether every row of `rows` refers to a stored object.
    pub open spec fn bindings_resolve(self, rows: Seq<Binding>) -> bool {
        forall|k: int| 0 <= k < rows.len() ==> self.has_id(#[trigger] rows[k].media_id as int)
    }

    /// The invariant of the store: ids count up from 1 in insertion order, no two
    /// objects share an original hash or a compressed hash, and every binding
    /// refers to a stored object.
    pub open spec fn wf(self) -> bool {
        &&& self.uploads.len() <= i32::MAX
        &&& forall|i: int| 0 <= i < self.uploads.len() ==> (#[trigger] self.uploads[i]).id == i + 1
        &&& forall|i: int, j: int|
            0 <= i < j < self.uploads.len() ==> (#[trigger] self.uploads[i]).original_hash != (
            #[trigger] self.uploads[j]).original_hash
        &&& forall|i: int, j: int|
            0 <= i < j < self.uploads.len() ==> (#[trigger] self.uploads[i]).compressed_hash != (
            #[trigger] self.uploads[j]).compressed_hash
        &&& self.bindings_resolve(self.announcement_media)
        &&& self.bindings_resolve(self.thread_media)
        &&& self.bindings_resolve(self.event_media)
    }

    /// The store after `media` was added as a new object.
    pub open spec fn with_upload(self, media: NewMediaView) -> MediaStoreView {
        MediaStoreView {
            uploads: self.uploads.push(stored_as(media, self.uploads.len() as int + 1)),
            ..self
        }
    }

    /// The store after `row` was added to the binding table of `kind`.
    pub open spec fn with_binding(self, kind: AttachmentType, row: Binding) -> MediaStoreView {
        match kind {
            AttachmentType::Announcement => MediaStoreView {
                announcement_media: self.announcement_media.push(row),
                ..self
            },
            AttachmentType::Thread => MediaStoreView {
                thread_media: self.thread_media.push(row),
                ..self
            },
            AttachmentType::Event => MediaStoreView {
                event_media: self.event_media.push(row),
                ..self
            },
        }
    }
}

/// In a well-formed store the object with a given original hash is unique.
pub proof fn lemma_by_original(s: MediaStoreView, i: int)
    requires
        s.wf(),
        0 <= i < s.uploads.len(),
    ensures
        s.has_original(s.uploads[i].original_hash),
        s.by_original(s.uploads[i].original_hash) == s.uploads[i],
{
    let hash = s.uploads[i].original_hash;
    let k = choose|k: int| 0 <= k < s.uploads.len() && s.uploads[k].original_hash == hash;
    if k < i {
        assert(s.uploads[k].original_hash != s.uploads[i].original_hash);
    } else if i < k {
        assert(s.uploads[i].original_hash != s.uploads[k].original_hash);
    }
}

/// In a well-formed store the object with a given compressed hash is unique.
pub proof fn lemma_by_compressed(s: MediaStoreView, i: int)
    requires
        s.wf(),
        0 <= i < s.uploads.len(),
    ensures
        s.has_compressed(s.uploads[i].compressed_hash),
        s.by_compressed(s.uploads[i].compressed_hash) == s.uploads[i],
{
    let hash = s.uploads[i].compressed_hash;
    let k = choose|k: int| 0 <= k < s.uploads.len() && s.uploads[k].compressed_hash == hash;
    if k < i {
        assert(s.uploads[k].compressed_hash != s.uploads[i].compressed_hash);
    } else if i < k {
        assert(s.uploads[i].compressed_hash != s.uploads[k].compressed_hash);
    }
}

/// Message of the store when an insert would repeat a hash.
pub const DUPLICATE_HASH_MESSAGE: &'static str = "duplicate key value violates unique constraint";

/// Message of the store when its ids are used up.
pub const OUT_OF_IDS_MESSAGE: &'static str = "integer out of range";

/// Message of the store when a binding names an object that is not stored.
pub const MISSING_MEDIA_MESSAGE: &'static str = "insert or update violates foreign key constraint";

/// What an insert of `media` into `s` answers: the new id, or the message of the
/// constraint that refuses it.
pub open spec fn insert_answer(s: MediaStoreView, media: NewMediaView) -> Result<int, Seq<char>> {
    if s.has_original(media.original_hash) || s.has_compressed(media.compressed_hash) {
        Err(DUPLICATE_HASH_MESSAGE@)
    } else if s.uploads.len() + 1 > i32::MAX {
        Err(OUT_OF_IDS_MESSAGE@)
    } else {
        Ok(s.uploads.len() as int + 1)
    }
}

/// The store after an insert of `media` was asked of `s`.
pub open spec fn after_insert_of(s: MediaStoreView, media: NewMediaView) -> MediaStoreView {
    if insert_answer(s, media) is Ok {
        s.with_upload(media)
    } else {
        s
    }
}

/// An accepted insert keeps the store well-formed.
pub proof fn lemma_insert_keeps_wf(s: MediaStoreView, media: NewMediaView)
    requires
        s.wf(),
    ensures
        after_insert_of(s, media).wf(),
{
    if insert_answer(s, media) is Ok {
        let t = s.with_upload(media);
        let n = s.uploads.len() as int;
        assert forall|i: int, j: int| 0 <= i < j < t.uploads.len() implies (
        #[trigger] t.uploads[i]).original_hash != (#[trigger] t.uploads[j]).original_hash by {
            if j == n {
                assert(t.uploads[i] == s.uploads[i]);
            } else {
                assert(t.uploads[i] == s.uploads[i] && t.uploads[j] == s.uploads[j]);
            }
        }
        assert forall|i: int, j: int| 0 <= i < j < t.uploads.len() implies (
        #[trigger] t.uploads[i]).compressed_hash != (#[trigger] t.uploads[j]).compressed_hash by {
            if j == n {
                assert(t.uploads[i] == s.uploads[i]);
            } else {
                assert(t.uploads[i] == s.uploads[i] && t.uploads[j] == s.uploads[j]);
            }
        }
        assert forall|i: int| 0 <= i < t.uploads.len() implies (#[trigger] t.uploads[i]).id == i
            + 1 by {
            if i < n {
                assert(t.uploads[i] == s.uploads[i]);
            }
        }
    }
}

/// What an upload of `data` under the name `name` returns on the store `s`: the
/// id of the object that holds the content, or why none does.
pub open spec fn upload_result(s: MediaStoreView, name: Seq<char>, data: Seq<u8>) -> Result<
    int,
    FileHandleErrorView,
> {
    let hash = blake3_hex(data);
    if s.has_original(hash) {
        Ok(s.by_original(hash).id)
    } else {
        match prepared_media(name, data, hash) {
            Err(e) => Err(e),
            Ok(media) => if s.has_compressed(media.compressed_hash) {
                Ok(s.by_compressed(media.compressed_hash).id)
            } else {
                match insert_answer(s, media) {
                    Ok(id) => Ok(id),
                    Err(text) => Err(FileHandleErrorView::SQLError(text)),
                }
            },
        }
    }
}

/// The store after an upload of `data` under the name `name`: a new object is
/// added only where neither hash of the content was known.
pub open spec fn after_upload(s: MediaStoreView, name: Seq<char>, data: Seq<u8>) -> MediaStoreView {
    let hash = blake3_hex(data);
    if s.has_original(hash) {
        s
    } else {
        match prepared_media(name, data, hash) {
            Err(_) => s,
            Ok(media) => if s.has_compressed(media.compressed_hash) {
                s
            } else {
                after_insert_of(s, media)
            },
        }
    }
}

/// The compressed hash of the most recent media bound to `target`, where
/// something is bound to it.
pub open spec fn resolved_hash(s: MediaStoreView, target: AttachmentId) -> Option<Seq<char>> {
    let rows = s.bindings(target.spec_kind());
    if has_binding(rows, target.spec_entity_id()) {
        Some(s.uploads[latest_binding(rows, target.spec_entity_id()).media_id - 1].compressed_hash)
    } else {
        None
    }
}

/// The store after a binding of `media_id` to `target` was asked of `s`.
pub open spec fn after_bind(s: MediaStoreView, target: AttachmentId, media_id: i32) -> MediaStoreView {
    if s.has_id(media_id as int) {
        s.with_binding(
            target.spec_kind(),
            Binding { entity_id: target.spec_entity_id(), media_id },
        )
    } else {
        s
    }
}

/// The store after an upload that is bound to `target` in the same unit of work.
pub open spec fn after_upload_file(
    s: MediaStoreView,
    name: Seq<char>,
    data: Seq<u8>,
    target: AttachmentId,
) -> MediaStoreView {
    match upload_result(s, name, data) {
        Ok(id) => after_upload(s, name, data).with_binding(
            target.spec_kind(),
            Binding { entity_id: target.spec_entity_id(), media_id: id as i32 },
        ),
        Err(_) => s,
    }
}

/// A successful upload returns the id of a stored object, and leaves the store
/// well-formed.
pub proof fn lemma_upload_result_is_stored(s: MediaStoreView, name: Seq<char>, data: Seq<u8>)
    requires
        s.wf(),
    ensures
        after_upload(s, name, data).wf(),
        upload_result(s, name, data) matches Ok(id) ==> after_upload(s, name, data).has_id(id)
            && id <= i32::MAX,
{
    let hash = blake3_hex(data);
    if s.has_original(hash) {
        let i = choose|i: int| 0 <= i < s.uploads.len() && s.uploads[i].original_hash == hash;
        assert(s.by_original(hash) == s.uploads[i]);
    } else {
        match prepared_media(name, data, hash) {
            Err(_) => {},
            Ok(media) => {
                if s.has_compressed(media.compressed_hash) {
                    let i = choose|i: int|
                        0 <= i < s.uploads.len() && s.uploads[i].compressed_hash
                            == media.compressed_hash;
                    assert(s.by_compressed(media.compressed_hash) == s.uploads[i]);
                } else {
                    lemma_insert_keeps_wf(s, media);
                }
            },
        }
    }
}

/// The compressed hash under which an upload of `data` named `name` would be
/// stored, where it can be prepared.
pub open spec fn compressed_hash_for(name: Seq<char>, data: Seq<u8>) -> Option<Seq<char>> {
    match prepared_media(name, data, blake3_hex(data)) {
        Ok(media) => Some(media.compressed_hash),
        Err(_) => None,
    }
}

/// Uploading the same bytes again, under whatever name, returns the id that the
/// first upload returned and leaves the store as the first upload left it; and
/// the object of that id is the only one with the content's original hash, and
/// the only one with its own compressed hash.
///
/// This holds where the first upload left an object keyed by the original hash of
/// the bytes, and also where both names lead to the same compressed form. It does
/// not hold otherwise: a first upload that ended on an object found by its
/// compressed hash stores nothing under the original hash, so a second name that
/// is prepared differently is looked up under another compressed hash.
pub proof fn lemma_repeated_upload_returns_same_id(
    s: MediaStoreView,
    first_name: Seq<char>,
    second_name: Seq<char>,
    data: Seq<u8>,
)
    requires
        s.wf(),
        upload_result(s, first_name, data) is Ok,
        after_upload(s, first_name, data).has_original(blake3_hex(data)) || compressed_hash_for(
            first_name,
            data,
        ) == compressed_hash_for(second_name, data),
    ensures
        ({
            let once = after_upload(s, first_name, data);
            let id = upload_result(s, first_name, data)->Ok_0;
            &&& once.wf()
            &&& upload_result(once, second_name, data) == upload_result(s, first_name, data)
            &&& after_upload(once, second_name, data) == once
            &&& once.has_id(id)
            &&& forall|k: int|
                0 <= k < once.uploads.len() && (#[trigger] once.uploads[k]).original_hash
                    == blake3_hex(data) ==> k == id - 1
            &&& forall|k: int|
                0 <= k < once.uploads.len() && (#[trigger] once.uploads[k]).compressed_hash
                    == once.uploads[id - 1].compressed_hash ==> k == id - 1
        }),
{
    let hash = blake3_hex(data);
    let once = after_upload(s, first_name, data);
    let id = upload_result(s, first_name, data)->Ok_0;
    lemma_upload_result_is_stored(s, first_name, data);
    if s.has_original(hash) {
        let i = choose|i: int| 0 <= i < s.uploads.len() && s.uploads[i].original_hash == hash;
        lemma_by_original(s, i);
        assert(id - 1 == i);
    } else {
        let media = prepared_media(first_name, data, hash)->Ok_0;
        if s.has_compressed(media.compressed_hash) {
            let i = choose|i: int|
                0 <= i < s.uploads.len() && s.uploads[i].compressed_hash == media.compressed_hash;
            lemma_by_compressed(s, i);
            assert(id - 1 == i);
            assert(once == s);
            assert(!once.has_original(hash));
        } else {
            let n = s.uploads.len() as int;
            assert(once == s.with_upload(media));
            assert(once.uploads[n] == stored_as(media, n + 1));
            assert(once.uploads[n].original_hash == hash);
            lemma_by_original(once, n);
            assert(id == n + 1);
        }
    }
    assert forall|k: int|
        0 <= k < once.uploads.len() && (#[trigger] once.uploads[k]).original_hash
            == hash implies k == id - 1 by {
        lemma_by_original(once, k);
        if once.has_original(hash) {
            if s.has_original(hash) {
            } else {
                let media = prepared_media(first_name, data, hash)->Ok_0;
                let n = s.uploads.len() as int;
                if k < n {
                    assert(once.uploads[k] == s.uploads[k]);
                }
            }
        }
    }
    assert forall|k: int|
        0 <= k < once.uploads.len() && (#[trigger] once.uploads[k]).compressed_hash
            == once.uploads[id - 1].compressed_hash implies k == id - 1 by {
        lemma_by_compressed(once, k);
        lemma_by_compressed(once, id - 1);
    }
}

/// An upload that is stored as a new object is served under the content type of
/// its kind: the fixed image type where the name marks an image, whatever the
/// format of the bytes was, and the name's own extension otherwise. (An extension
/// that is itself the normalized image type is served as that image type.)
pub proof fn lemma_new_upload_content_type(s: MediaStoreView, name: Seq<char>, data: Seq<u8>)
    requires
        s.wf(),
        upload_result(s, name, data) == Ok::<int, FileHandleErrorView>(s.uploads.len() as int + 1),
    ensures
        ({
            let stored = after_upload(s, name, data);
            let object = stored.uploads[s.uploads.len() as int];
            let ext = extension_of(name);
            &&& stored.uploads.len() == s.uploads.len() + 1
            &&& stored.has_compressed(object.compressed_hash)
            &&& stored.by_compressed(object.compressed_hash) == object
            &&& is_image_extension(ext) ==> response_for(object.file_type, object.blob).content_type
                == NORMALIZED_IMAGE_CONTENT_TYPE@
            &&& !is_image_extension(ext) && ext != NORMALIZED_IMAGE_TYPE@ ==> response_for(
                object.file_type,
                object.blob,
            ).content_type == ext
            &&& response_for(object.file_type, object.blob).cache_control == CACHE_CONTROL@
        }),
{
    let hash = blake3_hex(data);
    let n = s.uploads.len() as int;
    lemma_upload_result_is_stored(s, name, data);
    if s.has_original(hash) {
        let i = choose|i: int| 0 <= i < s.uploads.len() && s.uploads[i].original_hash == hash;
        lemma_by_original(s, i);
    } else {
        let media = prepared_media(name, data, hash)->Ok_0;
        if s.has_compressed(media.compressed_hash) {
            let i = choose|i: int|
                0 <= i < s.uploads.len() && s.uploads[i].compressed_hash == media.compressed_hash;
            lemma_by_compressed(s, i);
        } else {
            let stored = after_upload(s, name, data);
            assert(stored == s.with_upload(media));
            assert(stored.uploads[n] == stored_as(media, n + 1));
            lemma_by_compressed(stored, n);
        }
    }
}

/// The content-addressed media store together with the tables that bind its
/// objects to announcements, threads and events.
pub struct MediaStore {
    uploads: Vec<MediaObject>,
    announcement_media: Vec<Binding>,
    thread_media: Vec<Binding>,
    event_media: Vec<Binding>,
}

impl View for MediaStore {
    type V = MediaStoreView;

    closed spec fn view(&self) -> MediaStoreView {
        MediaStoreView {
            uploads: Seq::new(self.uploads@.len(), |i: int| self.uploads@[i]@),
            announcement_media: self.announcement_media@,
            thread_media: self.thread_media@,
            event_media: self.event_media@,
        }
    }
}

impl MediaStore {
    /// An empty store.
    pub fn new() -> (store: MediaStore)
        ensures
            store@.wf(),
            store@.uploads.len() == 0,
            store@.announcement_media.len() == 0,
            store@.thread_media.len() == 0,
            store@.event_media.len() == 0,
    {
        MediaStore {
            uploads: Vec::new(),
            announcement_media: Vec::new(),
            thread_media: Vec::new(),
            event_media: Vec::new(),
        }
    }

    /// The number of stored objects.
    pub fn len(&self) -> (n: usize)
        ensures
            n == self@.uploads.len(),
    {
        self.uploads.len()
    }

    /// The id of the stored object whose original hash is `hash`.
    pub fn find_by_original_hash(&self, hash: &str) -> (found: Option<i32>)
        requires
            self@.wf(),
        ensures
            match found {
                Some(id) => self@.has_original(hash@) && self@.by_original(hash@).id == id,
                None => !self@.has_original(hash@),
            },
    {
        let mut i: usize = 0;
        while i < self.uploads.len()
            invariant
                self@.wf(),
                i <= self.uploads@.len(),
                forall|j: int| 0 <= j < i ==> self@.uploads[j].original_hash != hash@,
            decreases self.uploads@.len() - i,
        {
            if same_text(self.uploads[i].original_hash.as_str(), hash) {
                proof {
                    lemma_by_original(self@, i as int);
                }
                return Some(self.uploads[i].id);
            }
            i += 1;
        }
        None
    }

    /// The id of the stored object whose compressed hash is `hash`.
    pub fn find_by_compressed_hash(&self, hash: &str) -> (found: Option<i32>)
        requires
            self@.wf(),
        ensures
            match found {
                Some(id) => self@.has_compressed(hash@) && self@.by_compressed(hash@).id == id,
                None => !self@.has_compressed(hash@),
            },
    {
        let mut i: usize = 0;
        while i < self.uploads.len()
            invariant
                self@.wf(),
                i <= self.uploads@.len(),
                forall|j: int| 0 <= j < i ==> self@.uploads[j].compressed_hash != hash@,
            decreases self.uploads@.len() - i,
        {
            if same_text(self.uploads[i].compressed_hash.as_str(), hash) {
                proof {
                    lemma_by_compressed(self@, i as int);
                }
                return Some(self.uploads[i].id);
            }
            i += 1;
        }
        None
    }

    /// Stores `media` as a new object and returns its id. The store refuses a
    /// repeated hash and an id beyond the range of ids, and is then unchanged.
    pub fn insert(&mut self, media: NewMedia) -> (inserted: Result<i32, String>)
        requires
            old(self)@.wf(),
        ensures
            final(self)@.wf(),
            final(self)@ == after_insert_of(old(self)@, media@),
            match inserted {
                Ok(id) => insert_answer(old(self)@, media@) == Ok::<int, Seq<char>>(id as int),
                Err(text) => insert_answer(old(self)@, media@) == Err::<int, Seq<char>>(text@),
            },
    {
        proof {
            lemma_insert_keeps_wf(self@, media@);
        }
        if self.find_by_original_hash(media.original_hash.as_str()).is_some()
            || self.find_by_compressed_hash(media.compressed_hash.as_str()).is_some() {
            return Err(DUPLICATE_HASH_MESSAGE.to_owned());
        }
        let n: usize = self.uploads.len();
        if n >= 2147483647 {
            return Err(OUT_OF_IDS_MESSAGE.to_owned());
        }
        let id: i32 = (n + 1) as i32;
        let ghost before = self@;
        self.uploads.push(
            MediaObject {
                id,
                file_type: media.file_type,
                blob: media.blob,
                original_hash: media.original_hash,
                compressed_hash: media.compressed_hash,
            },
        );
        assert(self@.uploads =~= before.with_upload(media@).uploads);
        Ok(id)
    }

    /// Runs the upload pipeline on this store: hash, look for the original hash,
    /// prepare, look for the compressed hash, insert.
    pub fn handle_upload(&mut self, name: &str, data: Vec<u8>) -> (outcome: Result<
        i32,
        FileHandleError,
    >)
        requires
            old(self)@.wf(),
        ensures
            final(self)@.wf(),
            final(self)@ == after_upload(old(self)@, name@, data@),
            match outcome {
                Ok(id) => upload_result(old(self)@, name@, data@) == Ok::<
                    int,
                    FileHandleErrorView,
                >(id as int),
                Err(e) => upload_result(old(self)@, name@, data@) == Err::<
                    int,
                    FileHandleErrorView,
                >(e@),
            },
    {
        let pending = begin_upload(name.to_owned(), data);
        let found = self.find_by_original_hash(pending.original_hash.as_str());
        match after_original_lookup(pending, found) {
            AfterOriginal::Finished(outcome) => outcome,
            AfterOriginal::FindCompressed(media) => {
                let found = self.find_by_compressed_hash(media.compressed_hash.as_str());
                match after_compressed_lookup(media, found) {
                    AfterCompressed::Finished(id) => Ok(id),
                    AfterCompressed::Insert(media) => after_insert(self.insert(media)),
                }
            },
        }
    }

    /// Binds the stored object `media_id` to the entity `attachment_id` by one new
    /// row in the table of the entity's kind. The store refuses a `media_id` that
    /// names no stored object, and is then unchanged.
    pub fn bind_attachment(&mut self, attachment_id: AttachmentId, media_id: i32) -> (bound: Result<
        (),
        String,
    >)
        requires
            old(self)@.wf(),
        ensures
            final(self)@.wf(),
            final(self)@ == after_bind(old(self)@, attachment_id, media_id),
            match bound {
                Ok(_) => old(self)@.has_id(media_id as int),
                Err(text) => !old(self)@.has_id(media_id as int) && text@ == MISSING_MEDIA_MESSAGE@,
            },
    {
        if media_id < 1 || self.uploads.len() < media_id as usize {
            return Err(MISSING_MEDIA_MESSAGE.to_owned());
        }
        let row = Binding { entity_id: attachment_id.entity_id(), media_id };
        match attachment_id {
            AttachmentId::Announcement(_) => self.announcement_media.push(row),
            AttachmentId::Thread(_) => self.thread_media.push(row),
            AttachmentId::Event(_) => self.event_media.push(row),
        }
        Ok(())
    }

    /// Stores an upload and binds it to `target` as one unit: either the content
    /// is held by the object whose id is returned and one new row binds that
    /// object to `target`, or the store is unchanged.
    pub fn upload_file(&mut self, name: &str, data: Vec<u8>, target: AttachmentId) -> (outcome:
        Result<i32, FileHandleError>)
        requires
            old(self)@.wf(),
        ensures
            final(self)@.wf(),
            final(self)@ == after_upload_file(old(self)@, name@, data@, target),
            match outcome {
                Ok(id) => upload_result(old(self)@, name@, data@) == Ok::<
                    int,
                    FileHandleErrorView,
                >(id as int),
                Err(e) => upload_result(old(self)@, name@, data@) == Err::<
                    int,
                    FileHandleErrorView,
                >(e@),
            },
    {
        proof {
            lemma_upload_result_is_stored(self@, name@, data@);
        }
        match self.handle_upload(name, data) {
            Ok(id) => match self.bind_attachment(target, id) {
                Ok(_) => Ok(id),
                Err(text) => Err(FileHandleError::SQLError(text)),
            },
            Err(e) => Err(e),
        }
    }

    /// The compressed hash of the media most recently bound to `target`.
    pub fn resolve_attachment(&self, target: AttachmentId) -> (hash: Option<String>)
        requires
            self@.wf(),
        ensures
            match hash {
                Some(text) => resolved_hash(self@, target) == Some(text@),
                None => resolved_hash(self@, target) is None,
            },
    {
        let rows = match target {
            AttachmentId::Announcement(_) => &self.announcement_media,
            AttachmentId::Thread(_) => &self.thread_media,
            AttachmentId::Event(_) => &self.event_media,
        };
        assert(rows@ == self@.bindings(target.spec_kind()));
        let entity_id = target.entity_id();
        let mut j: usize = rows.len();
        while j > 0
            invariant
                self@.wf(),
                rows@ == self@.bindings(target.spec_kind()),
                entity_id == target.spec_entity_id(),
                j <= rows@.len(),
                forall|k: int| j <= k < rows@.len() ==> rows@[k].entity_id != entity_id,
            decreases j,
        {
            j -= 1;
            if rows[j].entity_id == entity_id {
                proof {
                    lemma_latest_binding(rows@, entity_id, j as int);
                    assert(self@.bindings_resolve(rows@));
                    assert(self@.has_id(rows@[j as int].media_id as int));
                }
                let at: usize = (rows[j].media_id - 1) as usize;
                let hash = self.uploads[at].compressed_hash.clone();
                assert(self@.uploads[at as int].compressed_hash == hash@);
                assert(latest_binding(rows@, entity_id).media_id - 1 == at);
                return Some(hash);
            }
        }
        None
    }

    /// The stored bytes and file type of the object whose compressed hash is
    /// `hash`, as a response with its headers.
    pub fn view_file(&self, hash: &str) -> (response: Option<FileResponse>)
        requires
            self@.wf(),
        ensures
            match response {
                Some(found) => self@.has_compressed(hash@) && found@ == response_for(
                    self@.by_compressed(hash@).file_type,
                    self@.by_compressed(hash@).blob,
                ),
                None => !self@.has_compressed(hash@),
            },
    {
        match self.find_by_compressed_hash(hash) {
            Some(id) => {
                let at: usize = (id - 1) as usize;
                proof {
                    let i = choose|i: int|
                        0 <= i < self@.uploads.len() && self@.uploads[i].compressed_hash == hash@;
                    lemma_by_compressed(self@, i);
                    assert(self@.uploads[at as int] == self@.by_compressed(hash@));
                }
                Some(
                    file_response(
                        self.uploads[at].file_type.as_str(),
                        self.uploads[at].blob.clone(),
                    ),
                )
            },
            None => None,
        }
    }

    /// Where a request for the attachment of the entity `id` of kind
    /// `attachment_type` is sent.
    pub fn view_attachment_from_id(&self, id: i32, attachment_type: AttachmentType) -> (location:
        String)
        requires
            self@.wf(),
        ensures
            location@ == redirect_for(resolved_hash(self@, AttachmentId::new(attachment_type, id))),
    {
        let target = AttachmentId::new(attachment_type, id);
        attachment_redirect(self.resolve_attachment(target))
    }
}

} // verus!
