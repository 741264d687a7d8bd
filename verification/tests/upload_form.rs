use sac_backend::file_uploads::{AttachmentId, AttachmentType};
use sac_backend::upload_form::{
    field_role, read_target, target_from, unparsable_target, unreadable_target, FieldRole,
    FormField, UploadForm, UPLOAD_ACCEPTED,
};

fn file(name: &str, data: &[u8]) -> FormField {
    FormField::File { file_name: Some(name.to_string()), data: Some(data.to_vec()) }
}

fn target(kind: AttachmentType, text: &str) -> FormField {
    FormField::Target { kind, text: Some(text.to_string()) }
}

#[test]
fn fields_are_told_apart_by_name() {
    assert_eq!(field_role(Some("file")), FieldRole::File);
    assert_eq!(field_role(Some("announcement_id")), FieldRole::Target(AttachmentType::Announcement));
    assert_eq!(field_role(Some("thread_id")), FieldRole::Target(AttachmentType::Thread));
    assert_eq!(field_role(Some("event_id")), FieldRole::Target(AttachmentType::Event));
    assert_eq!(field_role(Some("File")), FieldRole::Ignored);
    assert_eq!(field_role(Some("comment_id")), FieldRole::Ignored);
    assert_eq!(field_role(Some("")), FieldRole::Ignored);
    assert_eq!(field_role(None), FieldRole::Ignored);
}

#[test]
fn kinds_name_their_table_and_column() {
    assert_eq!(AttachmentType::Announcement.table_name(), "announcement_media");
    assert_eq!(AttachmentType::Thread.table_name(), "thread_media");
    assert_eq!(AttachmentType::Event.table_name(), "event_media");
    assert_eq!(AttachmentType::Announcement.id_name(), "announcement_id");
    assert_eq!(AttachmentType::Thread.id_name(), "thread_id");
    assert_eq!(AttachmentType::Event.id_name(), "event_id");
}

#[test]
fn target_text_must_be_a_number() {
    assert_eq!(read_target(AttachmentType::Event, Some("5")), Ok(AttachmentId::Event(5)));
    assert_eq!(read_target(AttachmentType::Thread, Some("-12")), Ok(AttachmentId::Thread(-12)));
    assert_eq!(read_target(AttachmentType::Thread, Some("+7")), Ok(AttachmentId::Thread(7)));
    assert_eq!(
        read_target(AttachmentType::Announcement, Some("2147483647")),
        Ok(AttachmentId::Announcement(2147483647))
    );
    assert_eq!(
        read_target(AttachmentType::Announcement, Some("2147483648")),
        Err("Failed to parse 'announcement_id' as a number".to_string())
    );
    assert_eq!(
        read_target(AttachmentType::Event, Some("five")),
        Err("Failed to parse 'event_id' as a number".to_string())
    );
    assert_eq!(
        read_target(AttachmentType::Event, Some(" 5")),
        Err("Failed to parse 'event_id' as a number".to_string())
    );
    assert_eq!(
        read_target(AttachmentType::Event, Some("")),
        Err("Failed to parse 'event_id' as a number".to_string())
    );
    assert_eq!(
        read_target(AttachmentType::Thread, None),
        Err("Failed to get 'thread_id'".to_string())
    );
}

#[test]
fn target_messages_name_the_field() {
    assert_eq!(unreadable_target(AttachmentType::Event), "Failed to get 'event_id'");
    assert_eq!(
        unparsable_target(AttachmentType::Announcement),
        "Failed to parse 'announcement_id' as a number"
    );
    assert_eq!(target_from(AttachmentType::Event, Some(Some(3))), Ok(AttachmentId::Event(3)));
    assert_eq!(
        target_from(AttachmentType::Event, Some(None)),
        Err("Failed to parse 'event_id' as a number".to_string())
    );
    assert_eq!(
        target_from(AttachmentType::Event, None),
        Err("Failed to get 'event_id'".to_string())
    );
}

#[test]
fn complete_form_gives_the_upload() {
    let mut form = UploadForm::new();
    assert_eq!(form.accept(FormField::Ignored), Ok(()));
    assert_eq!(form.accept(file("cat.jpg", b"bytes")), Ok(()));
    assert_eq!(form.accept(target(AttachmentType::Event, "5")), Ok(()));
    let request = form.finish().unwrap();
    assert_eq!(request.file_name, "cat.jpg");
    assert_eq!(request.data, b"bytes".to_vec());
    assert_eq!(request.target, AttachmentId::Event(5));
    assert_eq!(UPLOAD_ACCEPTED, "Upload done.");
}

#[test]
fn later_fields_replace_earlier_ones() {
    let mut form = UploadForm::new();
    form.accept(target(AttachmentType::Event, "5")).unwrap();
    form.accept(file("a.txt", b"a")).unwrap();
    form.accept(target(AttachmentType::Thread, "8")).unwrap();
    form.accept(file("b.txt", b"b")).unwrap();
    let request = form.finish().unwrap();
    assert_eq!(request.file_name, "b.txt");
    assert_eq!(request.data, b"b".to_vec());
    assert_eq!(request.target, AttachmentId::Thread(8));
}

#[test]
fn file_field_needs_name_and_bytes() {
    let mut form = UploadForm::new();
    let without_name = FormField::File { file_name: None, data: Some(vec![1]) };
    assert_eq!(form.accept(without_name), Err("File name not found in headers".to_string()));
    assert!(form.file_name.is_none());
    assert!(form.file_data.is_none());
    let without_bytes = FormField::File { file_name: Some("a.txt".to_string()), data: None };
    assert_eq!(form.accept(without_bytes), Err("Failed to get data".to_string()));
    assert_eq!(form.file_name, Some("a.txt".to_string()));
    assert!(form.file_data.is_none());
}

#[test]
fn bad_target_field_ends_the_request() {
    let mut form = UploadForm::new();
    form.accept(target(AttachmentType::Event, "5")).unwrap();
    assert_eq!(
        form.accept(target(AttachmentType::Thread, "x")),
        Err("Failed to parse 'thread_id' as a number".to_string())
    );
    assert_eq!(form.attachment_id, Some(AttachmentId::Event(5)));
    assert_eq!(
        form.accept(FormField::Target { kind: AttachmentType::Announcement, text: None }),
        Err("Failed to get 'announcement_id'".to_string())
    );
}

#[test]
fn missing_parts_are_named_in_order() {
    let empty = UploadForm::new();
    assert_eq!(empty.finish().unwrap_err(), "File name not found");
    let mut only_target = UploadForm::new();
    only_target.accept(target(AttachmentType::Event, "5")).unwrap();
    assert_eq!(only_target.finish().unwrap_err(), "File name not found");
    let name_only = UploadForm {
        attachment_id: Some(AttachmentId::Event(1)),
        file_name: Some("a.txt".to_string()),
        file_data: None,
    };
    assert_eq!(name_only.finish().unwrap_err(), "File data not found");
    let mut only_file = UploadForm::new();
    only_file.accept(file("a.txt", b"a")).unwrap();
    assert_eq!(only_file.finish().unwrap_err(), "Attachment ID not found");
}
