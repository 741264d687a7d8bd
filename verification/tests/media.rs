use sac_backend::file_uploads::{
    after_compressed_lookup, after_insert, after_original_lookup, attachment_redirect,
    begin_upload, content_type_for, file_extension, file_response, image_extension, normalized,
    passthrough, prepare_media, AfterCompressed, AfterOriginal, AttachmentId, AttachmentType,
    FileHandleError, TranscodeFailure, CACHE_CONTROL,
};
use sac_backend::media_store::MediaStore;
use std::io::Cursor;

fn jpeg_bytes() -> Vec<u8> {
    let pixels = image::RgbImage::from_pixel(4, 4, image::Rgb([200, 10, 10]));
    let mut out = Cursor::new(Vec::new());
    image::DynamicImage::ImageRgb8(pixels)
        .write_to(&mut out, image::ImageFormat::Jpeg)
        .unwrap();
    out.into_inner()
}

fn png_bytes(width: u32, height: u32) -> Vec<u8> {
    let pixels = image::GrayImage::from_pixel(width, height, image::Luma([7]));
    let mut out = Cursor::new(Vec::new());
    image::DynamicImage::ImageLuma8(pixels)
        .write_to(&mut out, image::ImageFormat::Png)
        .unwrap();
    out.into_inner()
}

fn is_webp(bytes: &[u8]) -> bool {
    bytes.len() > 12 && &bytes[0..4] == b"RIFF" && &bytes[8..12] == b"WEBP"
}

#[test]
fn extension_is_what_follows_the_last_dot() {
    assert_eq!(file_extension("cat.jpg"), "jpg");
    assert_eq!(file_extension("archive.tar.gz"), "gz");
    assert_eq!(file_extension("trailing."), "");
    assert_eq!(file_extension(".hidden"), "hidden");
    assert_eq!(file_extension("caf\u{e9}.p\u{e9}"), "p\u{e9}");
}

#[test]
fn name_without_dot_has_the_default_type() {
    assert_eq!(file_extension("README"), "file");
    assert_eq!(file_extension(""), "file");
}

#[test]
fn image_extensions_match_case_sensitively() {
    assert!(image_extension("png"));
    assert!(image_extension("jpg"));
    assert!(image_extension("jpeg"));
    assert!(!image_extension("PNG"));
    assert!(!image_extension("Jpg"));
    assert!(!image_extension("gif"));
    assert!(!image_extension("webp"));
    assert!(!image_extension(""));
}

#[test]
fn original_hash_is_the_blake3_digest_in_hex() {
    let pending = begin_upload("empty.bin".to_string(), Vec::new());
    assert_eq!(
        pending.original_hash,
        "af1349b9f5f9a1a6a0404dea36dcc9499bcb25c9adc112b7cc9a93cae41f3262"
    );
    assert_eq!(pending.name, "empty.bin");
    assert!(pending.data.is_empty());
    let other = begin_upload("empty.bin".to_string(), b"abc".to_vec());
    assert_eq!(
        other.original_hash,
        "6437b3ac38465133ffb63b75273a8db548c558465d79db03fd359c6cd5bd9d85"
    );
}

#[test]
fn passthrough_keeps_bytes_and_hash() {
    let media = passthrough("txt".to_string(), b"hello".to_vec(), "h1".to_string());
    assert_eq!(media.file_type, "txt");
    assert_eq!(media.blob, b"hello".to_vec());
    assert_eq!(media.original_hash, "h1");
    assert_eq!(media.compressed_hash, "h1");
}

#[test]
fn normalized_packs_or_names_the_failure() {
    let media = normalized(Ok((vec![1, 2, 3], "c1".to_string())), "o1".to_string()).unwrap();
    assert_eq!(media.file_type, "webp");
    assert_eq!(media.blob, vec![1, 2, 3]);
    assert_eq!(media.original_hash, "o1");
    assert_eq!(media.compressed_hash, "c1");
    let decode = normalized(Err(TranscodeFailure::Decode), "o1".to_string());
    assert!(matches!(decode, Err(FileHandleError::InvalidImage)));
    let encode = normalized(Err(TranscodeFailure::Encode), "o1".to_string());
    assert!(matches!(encode, Err(FileHandleError::FailedToWriteAsWebP)));
}

#[test]
fn image_is_reencoded_as_webp() {
    let source = jpeg_bytes();
    let media = prepare_media("cat.jpg", source.clone(), "orig".to_string()).unwrap();
    assert_eq!(media.file_type, "webp");
    assert!(is_webp(&media.blob));
    assert_ne!(media.blob, source);
    assert_eq!(media.original_hash, "orig");
    let rehashed = begin_upload("x".to_string(), media.blob.clone());
    assert_eq!(media.compressed_hash, rehashed.original_hash);
    assert_ne!(media.compressed_hash, "orig");
}

#[test]
fn other_file_passes_through() {
    let media = prepare_media("notes.txt", b"hello".to_vec(), "orig".to_string()).unwrap();
    assert_eq!(media.file_type, "txt");
    assert_eq!(media.blob, b"hello".to_vec());
    assert_eq!(media.compressed_hash, "orig");
    let upper = prepare_media("scan.PNG", b"not an image".to_vec(), "o2".to_string()).unwrap();
    assert_eq!(upper.file_type, "PNG");
    assert_eq!(upper.blob, b"not an image".to_vec());
}

#[test]
fn undecodable_image_is_invalid() {
    let r = prepare_media("cat.png", b"not an image".to_vec(), "orig".to_string());
    assert!(matches!(r, Err(FileHandleError::InvalidImage)));
    let empty = prepare_media("cat.jpeg", Vec::new(), "orig".to_string());
    assert!(matches!(empty, Err(FileHandleError::InvalidImage)));
}

#[test]
fn image_too_wide_for_webp_fails_to_write() {
    let wide = png_bytes(16385, 1);
    let r = prepare_media("wide.png", wide, "orig".to_string());
    assert!(matches!(r, Err(FileHandleError::FailedToWriteAsWebP)));
}

#[test]
fn pipeline_steps_follow_the_lookups() {
    let pending = begin_upload("a.txt".to_string(), b"hello".to_vec());
    let hash = pending.original_hash.clone();
    match after_original_lookup(pending, Some(41)) {
        AfterOriginal::Finished(Ok(id)) => assert_eq!(id, 41),
        other => panic!("unexpected step {:?}", other),
    }
    let pending = begin_upload("a.png".to_string(), b"hello".to_vec());
    match after_original_lookup(pending, Some(41)) {
        AfterOriginal::Finished(Ok(id)) => assert_eq!(id, 41),
        other => panic!("unexpected step {:?}", other),
    }
    let pending = begin_upload("a.png".to_string(), b"hello".to_vec());
    match after_original_lookup(pending, None) {
        AfterOriginal::Finished(Err(FileHandleError::InvalidImage)) => {}
        other => panic!("unexpected step {:?}", other),
    }
    let pending = begin_upload("a.txt".to_string(), b"hello".to_vec());
    let media = match after_original_lookup(pending, None) {
        AfterOriginal::FindCompressed(media) => media,
        other => panic!("unexpected step {:?}", other),
    };
    assert_eq!(media.compressed_hash, hash);
    assert_eq!(media.file_type, "txt");
    match after_compressed_lookup(media, Some(3)) {
        AfterCompressed::Finished(id) => assert_eq!(id, 3),
        other => panic!("unexpected step {:?}", other),
    }
    let media = passthrough("txt".to_string(), b"hello".to_vec(), hash.clone());
    match after_compressed_lookup(media, None) {
        AfterCompressed::Insert(media) => assert_eq!(media.original_hash, hash),
        other => panic!("unexpected step {:?}", other),
    }
    assert!(matches!(after_insert(Ok(12)), Ok(12)));
    match after_insert(Err("disk full".to_string())) {
        Err(FileHandleError::SQLError(text)) => assert_eq!(text, "disk full"),
        other => panic!("unexpected outcome {:?}", other),
    }
}

#[test]
fn same_bytes_give_same_id_under_any_name() {
    let mut store = MediaStore::new();
    let first = store.handle_upload("notes.txt", b"hello".to_vec()).unwrap();
    let second = store.handle_upload("other.bin", b"hello".to_vec()).unwrap();
    let third = store.handle_upload("picture.png", b"hello".to_vec()).unwrap();
    assert_eq!(first, 1);
    assert_eq!(second, 1);
    assert_eq!(third, 1);
    assert_eq!(store.len(), 1);
    let other = store.handle_upload("notes.txt", b"world".to_vec()).unwrap();
    assert_eq!(other, 2);
    assert_eq!(store.len(), 2);
}

#[test]
fn same_image_gives_same_id() {
    let mut store = MediaStore::new();
    let source = jpeg_bytes();
    let first = store.handle_upload("cat.jpg", source.clone()).unwrap();
    let second = store.handle_upload("dog.jpeg", source.clone()).unwrap();
    let third = store.handle_upload("copy.txt", source).unwrap();
    assert_eq!((first, second, third), (1, 1, 1));
    assert_eq!(store.len(), 1);
}

#[test]
fn images_with_one_compressed_form_share_a_blob() {
    let mut store = MediaStore::new();
    let jpeg = jpeg_bytes();
    let decoded = image::load_from_memory(&jpeg).unwrap();
    let mut out = Cursor::new(Vec::new());
    decoded.write_to(&mut out, image::ImageFormat::Png).unwrap();
    let png = out.into_inner();
    assert_ne!(jpeg, png);
    let first = store.handle_upload("cat.jpg", jpeg).unwrap();
    let second = store.handle_upload("cat.png", png.clone()).unwrap();
    assert_eq!(first, 1);
    assert_eq!(second, 1);
    assert_eq!(store.len(), 1);
    // Nothing is stored under the second original hash, so the same bytes under
    // a name that is not re-encoded are new content.
    let plain = store.handle_upload("cat.bin", png.clone()).unwrap();
    assert_eq!(plain, 2);
    assert_eq!(store.len(), 2);
    let again = store.handle_upload("cat.png", png).unwrap();
    assert_eq!(again, 2);
}

#[test]
fn failed_upload_stores_nothing() {
    let mut store = MediaStore::new();
    let r = store.handle_upload("cat.png", b"junk".to_vec());
    assert!(matches!(r, Err(FileHandleError::InvalidImage)));
    assert_eq!(store.len(), 0);
    let r = store.upload_file("cat.png", b"junk".to_vec(), AttachmentId::Thread(1));
    assert!(matches!(r, Err(FileHandleError::InvalidImage)));
    assert_eq!(store.len(), 0);
    assert_eq!(store.resolve_attachment(AttachmentId::Thread(1)), None);
}

#[test]
fn store_finds_by_either_hash() {
    let mut store = MediaStore::new();
    let source = jpeg_bytes();
    let original = begin_upload("x".to_string(), source.clone()).original_hash;
    let id = store.handle_upload("cat.jpg", source).unwrap();
    assert_eq!(store.find_by_original_hash(&original), Some(id));
    assert_eq!(store.find_by_compressed_hash(&original), None);
    let served = store.view_file(&original);
    assert!(served.is_none());
    assert_eq!(store.find_by_original_hash("nothing"), None);
}

#[test]
fn insert_refuses_a_repeated_hash() {
    let mut store = MediaStore::new();
    let a = passthrough("txt".to_string(), b"a".to_vec(), "h1".to_string());
    assert_eq!(store.insert(a), Ok(1));
    let b = passthrough("bin".to_string(), b"b".to_vec(), "h1".to_string());
    assert_eq!(
        store.insert(b),
        Err("duplicate key value violates unique constraint".to_string())
    );
    assert_eq!(store.len(), 1);
    let c = normalized(Ok((vec![9], "h1".to_string())), "h2".to_string()).unwrap();
    assert!(store.insert(c).is_err());
    let d = normalized(Ok((vec![9], "c2".to_string())), "h2".to_string()).unwrap();
    assert_eq!(store.insert(d), Ok(2));
}

#[test]
fn binding_needs_a_stored_object() {
    let mut store = MediaStore::new();
    assert_eq!(
        store.bind_attachment(AttachmentId::Event(5), 1),
        Err("insert or update violates foreign key constraint".to_string())
    );
    assert_eq!(store.bind_attachment(AttachmentId::Event(5), 0), Err(
        "insert or update violates foreign key constraint".to_string()
    ));
    assert_eq!(store.resolve_attachment(AttachmentId::Event(5)), None);
    let id = store.handle_upload("a.txt", b"a".to_vec()).unwrap();
    assert_eq!(store.bind_attachment(AttachmentId::Event(5), id), Ok(()));
    assert!(store.resolve_attachment(AttachmentId::Event(5)).is_some());
    assert_eq!(store.resolve_attachment(AttachmentId::Thread(5)), None);
    assert_eq!(store.resolve_attachment(AttachmentId::Announcement(5)), None);
    assert_eq!(store.resolve_attachment(AttachmentId::Event(6)), None);
}

#[test]
fn attachment_resolves_to_the_latest_binding() {
    let mut store = MediaStore::new();
    let a = store.upload_file("a.txt", b"a".to_vec(), AttachmentId::Thread(3)).unwrap();
    let b = store.upload_file("b.txt", b"b".to_vec(), AttachmentId::Thread(3)).unwrap();
    let c = store.upload_file("c.txt", b"c".to_vec(), AttachmentId::Thread(4)).unwrap();
    assert_eq!((a, b, c), (1, 2, 3));
    let hash_b = begin_upload("b".to_string(), b"b".to_vec()).original_hash;
    let hash_c = begin_upload("c".to_string(), b"c".to_vec()).original_hash;
    assert_eq!(store.resolve_attachment(AttachmentId::Thread(3)), Some(hash_b));
    assert_eq!(store.resolve_attachment(AttachmentId::Thread(4)), Some(hash_c));
}

#[test]
fn content_type_follows_the_stored_type() {
    assert_eq!(content_type_for("webp"), "image/webp");
    assert_eq!(content_type_for("txt"), "txt");
    assert_eq!(content_type_for("file"), "file");
    assert_eq!(content_type_for("PNG"), "PNG");
    let response = file_response("pdf", vec![1, 2]);
    assert_eq!(response.content_type, "pdf");
    assert_eq!(response.cache_control, "max-age=31536000");
    assert_eq!(response.cache_control, CACHE_CONTROL);
    assert_eq!(response.body, vec![1, 2]);
}

#[test]
fn retrieval_type_is_normalized_for_images_and_extension_otherwise() {
    let mut store = MediaStore::new();
    store.handle_upload("cat.jpg", jpeg_bytes()).unwrap();
    store.handle_upload("dot.png", png_bytes(2, 2)).unwrap();
    store.handle_upload("notes.txt", b"hello".to_vec()).unwrap();
    store.handle_upload("README", b"read me".to_vec()).unwrap();
    let jpeg_hash = prepare_media("cat.jpg", jpeg_bytes(), "o".to_string()).unwrap().compressed_hash;
    let png_hash = prepare_media("dot.png", png_bytes(2, 2), "o".to_string()).unwrap().compressed_hash;
    let txt_hash = begin_upload("n".to_string(), b"hello".to_vec()).original_hash;
    let bare_hash = begin_upload("n".to_string(), b"read me".to_vec()).original_hash;
    assert_eq!(store.view_file(&jpeg_hash).unwrap().content_type, "image/webp");
    assert_eq!(store.view_file(&png_hash).unwrap().content_type, "image/webp");
    let txt = store.view_file(&txt_hash).unwrap();
    assert_eq!(txt.content_type, "txt");
    assert_eq!(txt.body, b"hello".to_vec());
    assert_eq!(store.view_file(&bare_hash).unwrap().content_type, "file");
    assert!(store.view_file("0000").is_none());
}

#[test]
fn redirect_goes_to_the_hash_or_to_not_found() {
    assert_eq!(attachment_redirect(Some("abc".to_string())), "/media/view?hash=abc");
    assert_eq!(attachment_redirect(None), "/404");
}

#[test]
fn attachment_ids_carry_kind_and_entity() {
    let id = AttachmentId::new(AttachmentType::Thread, 9);
    assert_eq!(id, AttachmentId::Thread(9));
    assert_eq!(id.kind(), AttachmentType::Thread);
    assert_eq!(id.entity_id(), 9);
    assert_eq!(AttachmentId::new(AttachmentType::Event, -1), AttachmentId::Event(-1));
    assert_eq!(AttachmentId::new(AttachmentType::Announcement, 2).kind(), AttachmentType::Announcement);
}

#[test]
fn uploaded_image_is_served_as_webp_through_its_attachment() {
    let mut store = MediaStore::new();
    let id = store
        .upload_file("cat.jpg", jpeg_bytes(), AttachmentId::Event(5))
        .unwrap();
    assert_eq!(id, 1);
    let location = store.view_attachment_from_id(5, AttachmentType::Event);
    let prefix = "/media/view?hash=";
    assert!(location.starts_with(prefix));
    let hash = &location[prefix.len()..];
    assert_eq!(hash.len(), 64);
    assert!(hash.chars().all(|c| c.is_ascii_hexdigit()));
    let response = store.view_file(hash).unwrap();
    assert_eq!(response.content_type, "image/webp");
    assert_eq!(response.cache_control, "max-age=31536000");
    assert!(is_webp(&response.body));
    assert_eq!(store.view_attachment_from_id(6, AttachmentType::Event), "/404");
    assert_eq!(store.view_attachment_from_id(5, AttachmentType::Thread), "/404");
}
