use graph_server::models::{ApiKey, ApiKeyScope, Refusal};
use graph_server::patch_notes::{
    check_image_content_type, form_field, image_extension, image_urls_for,
    is_supported_image_content_type, non_empty_setting, patch_note_from_record,
    patch_note_object_key, plan_list_patch_notes, storage_endpoint, validate_patch_note,
    FormField, ImageStorage, PatchNoteForm, PatchNoteRecord,
};

fn api_key(scopes: &[ApiKeyScope]) -> ApiKey {
    ApiKey::new(
        "Test API key".to_string(),
        "test-public-id".to_string(),
        None,
        scopes.iter().map(|scope| scope.to_text()).collect(),
        0,
        None,
    )
}

#[test]
fn images_are_jpeg_png_gif_or_webp() {
    for (content_type, extension) in [
        ("image/jpeg", ".jpg"),
        ("image/png", ".png"),
        ("image/gif", ".gif"),
        ("image/webp", ".webp"),
    ] {
        assert!(is_supported_image_content_type(content_type));
        assert_eq!(image_extension(content_type), extension);
    }
    assert!(!is_supported_image_content_type("image/svg+xml"));
    assert_eq!(image_extension("image/svg+xml"), "");
    assert_eq!(check_image_content_type(Some("image/png")), Ok("image/png".to_string()));
    assert_eq!(
        check_image_content_type(None),
        Err("field `images` must include a content type".to_string())
    );
    assert_eq!(
        check_image_content_type(Some("text/plain")),
        Err("field `images` has unsupported content type: text/plain".to_string())
    );
}

#[test]
fn image_objects_are_keyed_by_note_position_and_image() {
    assert_eq!(
        patch_note_object_key(1, 7, 2, "image/png"),
        "patch-notes/00000000-0000-0000-0000-000000000001/0007-00000000-0000-0000-0000-000000000002.png"
    );
    assert_eq!(
        patch_note_object_key(1, 12345, 2, "image/gif"),
        "patch-notes/00000000-0000-0000-0000-000000000001/12345-00000000-0000-0000-0000-000000000002.gif"
    );
    let storage = ImageStorage::new("bucket".to_string(), "https://cdn.example.com//");
    assert_eq!(storage.public_url_base, "https://cdn.example.com");
    assert_eq!(storage.build_public_url("a/b.png"), "https://cdn.example.com/a/b.png");
}

#[test]
fn storage_settings_fall_back_to_the_account_endpoint() {
    assert_eq!(
        storage_endpoint(None, Some("acct".to_string())),
        Some("https://acct.r2.cloudflarestorage.com".to_string())
    );
    assert_eq!(
        storage_endpoint(Some("https://s3".to_string()), Some("acct".to_string())),
        Some("https://s3".to_string())
    );
    assert_eq!(storage_endpoint(None, None), None);
    assert_eq!(non_empty_setting(Some("  ".to_string())), None);
    assert_eq!(non_empty_setting(Some(" x ".to_string())), Some(" x ".to_string()));
}

#[test]
fn patch_note_forms_need_every_field() {
    assert_eq!(form_field(Some("title")), Some(FormField::Title));
    assert_eq!(form_field(Some("images")), Some(FormField::Images));
    assert_eq!(form_field(Some("other")), Some(FormField::Other));
    assert_eq!(form_field(None), None);

    let mut form = PatchNoteForm::new();
    form.set_text(FormField::Target, "lobby".to_string());
    form.set_text(FormField::Category, "fix".to_string());
    form.set_text(FormField::Title, "first".to_string());
    assert_eq!(form.add_image(Vec::new(), "image/png".to_string()), Err("field `images` must not be empty".to_string()));
    assert_eq!(form.add_image(vec![1, 2], "image/png".to_string()), Ok(()));
    let missing = match form.finish() {
        Ok(_) => panic!("the body is missing"),
        Err(message) => message,
    };
    assert_eq!(missing, "missing field: body");

    let mut form = PatchNoteForm::new();
    form.set_text(FormField::Target, "lobby".to_string());
    form.set_text(FormField::Category, "fix".to_string());
    form.set_text(FormField::Title, "first".to_string());
    form.set_text(FormField::Title, "second".to_string());
    form.set_text(FormField::Body, "text".to_string());
    form.set_text(FormField::Other, "ignored".to_string());
    let fields = match form.finish() {
        Ok(fields) => fields,
        Err(message) => panic!("{message}"),
    };
    assert_eq!(fields.title, "second");
    let (request, content_types) = validate_patch_note(fields, None, None).ok().unwrap();
    assert_eq!(request.body, "text");
    assert!(request.images.is_none());
    assert!(content_types.is_empty());
}

#[test]
fn patch_note_fields_are_validated_in_order() {
    let fields = |title: &str| {
        let mut form = PatchNoteForm::new();
        form.set_text(FormField::Target, "t".to_string());
        form.set_text(FormField::Category, "c".to_string());
        form.set_text(FormField::Title, title.to_string());
        form.set_text(FormField::Body, " ".to_string());
        match form.finish() {
            Ok(fields) => fields,
            Err(message) => panic!("{message}"),
        }
    };
    assert_eq!(
        validate_patch_note(fields("x"), Some("unknown".to_string()), Some("bad".to_string())).err(),
        Some("invalid field `target`: unknown".to_string())
    );
    assert_eq!(
        validate_patch_note(fields("x"), None, Some("bad".to_string())).err(),
        Some("invalid field `category`: bad".to_string())
    );
    assert_eq!(
        validate_patch_note(fields(" "), None, None).err(),
        Some("field `title` must not be empty".to_string())
    );
    assert_eq!(
        validate_patch_note(fields("x"), None, None).err(),
        Some("field `body` must not be empty".to_string())
    );
}

#[test]
fn patch_note_listings_clamp_their_limit() {
    let reader = api_key(&[ApiKeyScope::PatchNotesColonRead]);
    let limit = |l: Option<i32>| plan_list_patch_notes(&reader, l, None, None, None).ok().unwrap().limit;
    assert_eq!(limit(None), 20);
    assert_eq!(limit(Some(0)), 1);
    assert_eq!(limit(Some(-5)), 1);
    assert_eq!(limit(Some(500)), 100);
    assert_eq!(
        plan_list_patch_notes(&reader, None, Some(Err(())), None, None).err(),
        Some(Refusal::Invalid)
    );
    assert_eq!(
        plan_list_patch_notes(&api_key(&[]), None, None, None, None).err(),
        Some(Refusal::Forbidden)
    );
}

#[test]
fn listed_patch_notes_carry_their_image_urls() {
    let rows = vec![(1u128, "u1".to_string()), (2, "u2".to_string()), (1, "u3".to_string())];
    assert_eq!(image_urls_for(&rows, 1), vec!["u1".to_string(), "u3".to_string()]);
    let item = patch_note_from_record(
        PatchNoteRecord {
            id: 1,
            target: "t".to_string(),
            category: "c".to_string(),
            title: "title".to_string(),
            body: "body".to_string(),
            created_at: 9,
        },
        image_urls_for(&rows, 1),
    );
    assert_eq!(item.image_urls.len(), 2);
    assert_eq!(item.created_at, 9);
}
