//! Patch note rules: the images a patch note may carry and where they are
//! stored, the fields of the form a patch note is created from, and what a
//! patch note listing is read with.
use vstd::prelude::*;

use crate::auth::scope::grants;
use crate::encoding::{format_uuid, uuid_hyphenated};
use crate::models::{ApiKey, ApiKeyScope, Refusal};
use crate::pagination::{Cursor, CursorError};
use crate::text::{blank, format_zero_padded, is_blank, text_eq, zero_padded};

verus! {

/// The page size when a patch note listing names none, and the largest.
pub const DEFAULT_PATCH_NOTES_LIMIT: i32 = 20;

pub const MAX_PATCH_NOTES_LIMIT: i32 = 100;

/// The content types a patch note image may have.
pub open spec fn supported_image_type(content_type: Seq<char>) -> bool {
    content_type == "image/jpeg"@ || content_type == "image/png"@ || content_type
        == "image/gif"@ || content_type == "image/webp"@
}

/// The file extension an image of a content type is stored with ("" for
/// others).
pub open spec fn extension_of(content_type: Seq<char>) -> Seq<char> {
    if content_type == "image/jpeg"@ {
        ".jpg"@
    } else if content_type == "image/png"@ {
        ".png"@
    } else if content_type == "image/gif"@ {
        ".gif"@
    } else if content_type == "image/webp"@ {
        ".webp"@
    } else {
        ""@
    }
}

/// Whether a patch note image may have this content type.
pub fn is_supported_image_content_type(content_type: &str) -> (res: bool)
    ensures
        res == supported_image_type(content_type@),
{
    text_eq(content_type, "image/jpeg") || text_eq(content_type, "image/png") || text_eq(
        content_type,
        "image/gif",
    ) || text_eq(content_type, "image/webp")
}

/// The file extension an image of this content type is stored with.
pub fn image_extension(content_type: &str) -> (res: &'static str)
    ensures
        res@ == extension_of(content_type@),
{
    if text_eq(content_type, "image/jpeg") {
        ".jpg"
    } else if text_eq(content_type, "image/png") {
        ".png"
    } else if text_eq(content_type, "image/gif") {
        ".gif"
    } else if text_eq(content_type, "image/webp") {
        ".webp"
    } else {
        ""
    }
}

/// The object key an image of a patch note is stored under:
/// `patch-notes/{note}/{position, four digits at least}-{image}{extension}`.
pub open spec fn object_key_of(
    patch_note_id: u128,
    position: u64,
    image_id: u128,
    content_type: Seq<char>,
) -> Seq<char> {
    "patch-notes/"@ + uuid_hyphenated(patch_note_id) + "/"@ + zero_padded(position as nat, 4)
        + "-"@ + uuid_hyphenated(image_id) + extension_of(content_type)
}

/// The object key an image of a patch note is stored under.
pub fn patch_note_object_key(
    patch_note_id: u128,
    position: u64,
    image_id: u128,
    content_type: &str,
) -> (res: String)
    ensures
        res@ == object_key_of(patch_note_id, position, image_id, content_type@),
{
    let mut key = String::new();
    key.append("patch-notes/");
    let note = format_uuid(patch_note_id);
    key.append(note.as_str());
    key.append("/");
    let padded = format_zero_padded(position, 4);
    key.append(padded.as_str());
    key.append("-");
    let image = format_uuid(image_id);
    key.append(image.as_str());
    key.append(image_extension(content_type));
    key
}

/// Where images are stored: the bucket and the base of their public URLs,
/// kept without trailing slashes.
pub struct ImageStorage {
    pub bucket: String,
    pub public_url_base: String,
}

/// A text without the slashes at its end.
pub open spec fn trim_trailing_slashes(s: Seq<char>) -> Seq<char>
    decreases s.len(),
{
    if s.len() > 0 && s.last() == '/' {
        trim_trailing_slashes(s.drop_last())
    } else {
        s
    }
}

fn trim_end_slashes(s: &str) -> (res: String)
    ensures
        res@ == trim_trailing_slashes(s@),
{
    let chars = crate::text::char_vec(s);
    let mut end: usize = chars.len();
    proof {
        assert(s@.subrange(0, end as int) =~= s@);
    }
    while end > 0 && chars[end - 1] == '/'
        invariant
            chars@ == s@,
            end <= s@.len(),
            trim_trailing_slashes(s@) == trim_trailing_slashes(s@.subrange(0, end as int)),
        decreases end,
    {
        proof {
            assert(s@.subrange(0, end as int).drop_last() =~= s@.subrange(0, end - 1));
        }
        end = end - 1;
    }
    s.substring_char(0, end).to_owned()
}

impl ImageStorage {
    /// The storage of a bucket whose objects are served under a URL base.
    pub fn new(bucket: String, public_url_base: &str) -> (res: Self)
        ensures
            res.bucket == bucket,
            res.public_url_base@ == trim_trailing_slashes(public_url_base@),
    {
        ImageStorage { bucket, public_url_base: trim_end_slashes(public_url_base) }
    }

    /// The public URL of an object.
    pub fn build_public_url(&self, object_key: &str) -> (res: String)
        ensures
            res@ == self.public_url_base@ + "/"@ + object_key@,
    {
        let mut url = self.public_url_base.clone();
        url.append("/");
        url.append(object_key);
        url
    }
}

/// The S3 endpoint of the image storage: the one configured, or else the
/// Cloudflare R2 endpoint of the configured account.
pub open spec fn endpoint_of(endpoint: Option<Seq<char>>, account_id: Option<Seq<char>>) -> Option<
    Seq<char>,
> {
    match endpoint {
        Some(e) => Some(e),
        None => match account_id {
            Some(a) => Some("https://"@ + a + ".r2.cloudflarestorage.com"@),
            None => None,
        },
    }
}

/// The S3 endpoint of the image storage.
pub fn storage_endpoint(endpoint: Option<String>, account_id: Option<String>) -> (res: Option<String>)
    ensures
        match res {
            Some(r) => endpoint_of(
                crate::punishments::opt_view(endpoint),
                crate::punishments::opt_view(account_id),
            ) == Some(r@),
            None => endpoint_of(
                crate::punishments::opt_view(endpoint),
                crate::punishments::opt_view(account_id),
            ) is None,
        },
{
    match endpoint {
        Some(e) => Some(e),
        None => match account_id {
            Some(a) => {
                let mut url = String::new();
                url.append("https://");
                url.append(a.as_str());
                url.append(".r2.cloudflarestorage.com");
                Some(url)
            },
            None => None,
        },
    }
}

/// A configuration value that is set and holds more than whitespace.
pub fn non_empty_setting(value: Option<String>) -> (res: Option<String>)
    ensures
        match value {
            Some(v) => if is_blank(v@) {
                res is None
            } else {
                res == Some(v)
            },
            None => res is None,
        },
{
    match value {
        Some(v) => {
            if blank(v.as_str()) {
                None
            } else {
                Some(v)
            }
        },
        None => None,
    }
}


/// What a field of the form a patch note is created from holds.
#[derive(Clone, Copy, Debug, PartialEq, Eq, Structural)]
pub enum FormField {
    Target,
    Category,
    Title,
    Body,
    Images,
    Other,
}

/// The field a form part's name stands for (`None`: the part has no name
/// and is skipped).
pub open spec fn field_named(name: Option<Seq<char>>) -> Option<FormField> {
    match name {
        None => None,
        Some(n) => Some(
            if n == "target"@ {
                FormField::Target
            } else if n == "category"@ {
                FormField::Category
            } else if n == "title"@ {
                FormField::Title
            } else if n == "body"@ {
                FormField::Body
            } else if n == "images"@ {
                FormField::Images
            } else {
                FormField::Other
            },
        ),
    }
}

/// The field a form part's name stands for.
pub fn form_field(name: Option<&str>) -> (res: Option<FormField>)
    ensures
        res == field_named(crate::players::ref_view(name)),
{
    match name {
        None => None,
        Some(n) => Some(
            if text_eq(n, "target") {
                FormField::Target
            } else if text_eq(n, "category") {
                FormField::Category
            } else if text_eq(n, "title") {
                FormField::Title
            } else if text_eq(n, "body") {
                FormField::Body
            } else if text_eq(n, "images") {
                FormField::Images
            } else {
                FormField::Other
            },
        ),
    }
}

/// The fields of a patch note form read so far; a text field read twice
/// keeps the last value.
pub struct PatchNoteForm {
    pub target: Option<String>,
    pub category: Option<String>,
    pub title: Option<String>,
    pub body: Option<String>,
    pub images: Vec<Vec<u8>>,
    pub image_content_types: Vec<String>,
}

/// The message of an image part without a content type.
pub open spec fn missing_content_type_message() -> Seq<char> {
    "field `images` must include a content type"@
}

/// The message of an image part of a content type that is not supported.
pub open spec fn unsupported_content_type_message(content_type: Seq<char>) -> Seq<char> {
    "field `images` has unsupported content type: "@ + content_type
}

/// The message of an empty image part.
pub open spec fn empty_image_message() -> Seq<char> {
    "field `images` must not be empty"@
}

/// The content type of an image part, or why the part is refused.
pub fn check_image_content_type(content_type: Option<&str>) -> (res: Result<String, String>)
    ensures
        match content_type {
            None => res matches Err(m) && m@ == missing_content_type_message(),
            Some(t) => if supported_image_type(t@) {
                res matches Ok(v) && v@ == t@
            } else {
                res matches Err(m) && m@ == unsupported_content_type_message(t@)
            },
        },
{
    match content_type {
        None => Err("field `images` must include a content type".to_owned()),
        Some(t) => {
            if is_supported_image_content_type(t) {
                Ok(t.to_owned())
            } else {
                let mut message = String::new();
                message.append("field `images` has unsupported content type: ");
                message.append(t);
                Err(message)
            }
        },
    }
}

/// The parts of a patch note that must be there, with its images and their
/// content types.
pub struct PatchNoteFields {
    pub target: String,
    pub category: String,
    pub title: String,
    pub body: String,
    pub images: Vec<Vec<u8>>,
    pub image_content_types: Vec<String>,
}

/// The message of a form without a field.
pub open spec fn missing_field_message(name: Seq<char>) -> Seq<char> {
    "missing field: "@ + name
}

fn missing_field(name: &str) -> (res: String)
    ensures
        res@ == missing_field_message(name@),
{
    let mut message = String::new();
    message.append("missing field: ");
    message.append(name);
    message
}

impl PatchNoteForm {
    /// A form with nothing read yet.
    pub fn new() -> (res: Self)
        ensures
            res.target is None,
            res.category is None,
            res.title is None,
            res.body is None,
            res.images@.len() == 0,
            res.image_content_types@.len() == 0,
    {
        PatchNoteForm {
            target: None,
            category: None,
            title: None,
            body: None,
            images: Vec::new(),
            image_content_types: Vec::new(),
        }
    }

    /// Records the text of a field (other fields are ignored).
    pub fn set_text(&mut self, field: FormField, value: String)
        ensures
            final(self).images == old(self).images,
            final(self).image_content_types == old(self).image_content_types,
            final(self).target == (if field == FormField::Target {
                Some(value)
            } else {
                old(self).target
            }),
            final(self).category == (if field == FormField::Category {
                Some(value)
            } else {
                old(self).category
            }),
            final(self).title == (if field == FormField::Title {
                Some(value)
            } else {
                old(self).title
            }),
            final(self).body == (if field == FormField::Body {
                Some(value)
            } else {
                old(self).body
            }),
    {
        match field {
            FormField::Target => self.target = Some(value),
            FormField::Category => self.category = Some(value),
            FormField::Title => self.title = Some(value),
            FormField::Body => self.body = Some(value),
            _ => {},
        }
    }

    /// Records an image of a checked content type; an empty image refuses
    /// the form.
    pub fn add_image(&mut self, bytes: Vec<u8>, content_type: String) -> (res: Result<(), String>)
        ensures
            final(self).target == old(self).target,
            final(self).category == old(self).category,
            final(self).title == old(self).title,
            final(self).body == old(self).body,
            bytes@.len() == 0 ==> (res matches Err(m) && m@ == empty_image_message()) && final(self).images == old(self).images && final(self).image_content_types == old(self).image_content_types,
            bytes@.len() > 0 ==> res is Ok && final(self).images@ == old(self).images@.push(bytes)
                && final(self).image_content_types@ == old(self).image_content_types@.push(
                content_type,
            ),
    {
        if bytes.len() == 0 {
            return Err("field `images` must not be empty".to_owned());
        }
        self.images.push(bytes);
        self.image_content_types.push(content_type);
        Ok(())
    }

    /// The form's fields, or the first of target, category, title and body
    /// that is missing.
    pub fn finish(self) -> (res: Result<PatchNoteFields, String>)
        ensures
            self.target is None ==> (res matches Err(m) && m@ == missing_field_message("target"@)),
            self.target is Some && self.category is None ==> (res matches Err(m) && m@
                == missing_field_message("category"@)),
            self.target is Some && self.category is Some && self.title is None ==> (res matches Err(
                m,
            ) && m@ == missing_field_message("title"@)),
            self.target is Some && self.category is Some && self.title is Some && self.body is None
                ==> (res matches Err(m) && m@ == missing_field_message("body"@)),
            self.target is Some && self.category is Some && self.title is Some && self.body is Some
                ==> (res matches Ok(f) && f.target == self.target->0 && f.category
                == self.category->0 && f.title == self.title->0 && f.body == self.body->0
                && f.images == self.images && f.image_content_types == self.image_content_types),
    {
        let target = match self.target {
            Some(t) => t,
            None => return Err(missing_field("target")),
        };
        let category = match self.category {
            Some(c) => c,
            None => return Err(missing_field("category")),
        };
        let title = match self.title {
            Some(t) => t,
            None => return Err(missing_field("title")),
        };
        let body = match self.body {
            Some(b) => b,
            None => return Err(missing_field("body")),
        };
        Ok(
            PatchNoteFields {
                target,
                category,
                title,
                body,
                images: self.images,
                image_content_types: self.image_content_types,
            },
        )
    }
}

/// The request a patch note form makes: its images are `None` where there
/// are none.
pub struct CreatePatchNoteRequest {
    pub target: String,
    pub category: String,
    pub title: String,
    pub body: String,
    pub images: Option<Vec<Vec<u8>>>,
}

/// The message of a target or category the API does not know.
pub open spec fn invalid_field_message(name: Seq<char>, error: Seq<char>) -> Seq<char> {
    "invalid field `"@ + name + "`: "@ + error
}

/// The request the fields of a patch note form make, or why they are
/// refused: in this order, a target or category the API does not know (each
/// with the error that reading it gave), a blank title, a blank body.
pub fn validate_patch_note(
    fields: PatchNoteFields,
    target_error: Option<String>,
    category_error: Option<String>,
) -> (res: Result<(CreatePatchNoteRequest, Vec<String>), String>)
    ensures
        target_error matches Some(e) ==> (res matches Err(m) && m@ == invalid_field_message(
            "target"@,
            e@,
        )),
        target_error is None ==> (category_error matches Some(e) ==> (res matches Err(m) && m@
            == invalid_field_message("category"@, e@))),
        target_error is None && category_error is None && is_blank(fields.title@) ==> (
        res matches Err(m) && m@ == "field `title` must not be empty"@),
        target_error is None && category_error is None && !is_blank(fields.title@) && is_blank(
            fields.body@,
        ) ==> (res matches Err(m) && m@ == "field `body` must not be empty"@),
        target_error is None && category_error is None && !is_blank(fields.title@) && !is_blank(
            fields.body@,
        ) ==> (res matches Ok(r) && r.0.target == fields.target && r.0.category == fields.category
            && r.0.title == fields.title && r.0.body == fields.body && (if fields.images@.len()
            == 0 {
            r.0.images is None
        } else {
            r.0.images == Some(fields.images)
        }) && r.1 == fields.image_content_types),
{
    if let Some(e) = target_error {
        let mut message = String::new();
        message.append("invalid field `");
        message.append("target");
        message.append("`: ");
        message.append(e.as_str());
        return Err(message);
    }
    if let Some(e) = category_error {
        let mut message = String::new();
        message.append("invalid field `");
        message.append("category");
        message.append("`: ");
        message.append(e.as_str());
        return Err(message);
    }
    if blank(fields.title.as_str()) {
        return Err("field `title` must not be empty".to_owned());
    }
    if blank(fields.body.as_str()) {
        return Err("field `body` must not be empty".to_owned());
    }
    let images = if fields.images.len() == 0 {
        None
    } else {
        Some(fields.images)
    };
    Ok(
        (
            CreatePatchNoteRequest {
                target: fields.target,
                category: fields.category,
                title: fields.title,
                body: fields.body,
                images,
            },
            fields.image_content_types,
        ),
    )
}

/// The page size of a patch note listing: the limit named (20 where none
/// is) brought into 1 to 100.
pub open spec fn patch_note_limit(limit: Option<i32>) -> int {
    let l = match limit {
        Some(l) => l as int,
        None => DEFAULT_PATCH_NOTES_LIMIT as int,
    };
    if l < 1 {
        1
    } else if l > MAX_PATCH_NOTES_LIMIT {
        MAX_PATCH_NOTES_LIMIT as int
    } else {
        l
    }
}

/// How a patch note listing is read: the page size, the target and category
/// in their canonical texts, and the cursor to continue after.
pub struct PatchNoteListing {
    pub limit: usize,
    pub target: Option<String>,
    pub category: Option<String>,
    pub cursor: Option<Cursor<i128, u128>>,
}

/// How a patch note listing is read, or why it is refused: a key that may
/// not read patch notes (403); then, in this order, a target, a category
/// or a cursor that could not be read (400). The target and category come
/// as read by the API's enumerations (`Err` where they name none).
pub fn plan_list_patch_notes(
    api_key: &ApiKey,
    limit: Option<i32>,
    target: Option<Result<String, ()>>,
    category: Option<Result<String, ()>>,
    cursor: Option<Result<Cursor<i128, u128>, CursorError>>,
) -> (res: Result<PatchNoteListing, Refusal>)
    ensures
        !grants(api_key.granted(), ApiKeyScope::PatchNotesColonRead) ==> res is Err
            && res->Err_0 == Refusal::Forbidden,
        grants(api_key.granted(), ApiKeyScope::PatchNotesColonRead) ==> if (target matches Some(t)
            && t is Err) || (category matches Some(c) && c is Err) || (cursor matches Some(c)
            && c is Err) {
            res is Err && res->Err_0 == Refusal::Invalid
        } else {
            res matches Ok(plan) && plan.limit == patch_note_limit(limit) && plan.target == (
            match target {
                Some(Ok(t)) => Some(t),
                _ => None,
            }) && plan.category == (match category {
                Some(Ok(c)) => Some(c),
                _ => None,
            }) && plan.cursor == (match cursor {
                Some(Ok(c)) => Some(c),
                _ => None,
            })
        },
{
    if !api_key.has_scope(&ApiKeyScope::PatchNotesColonRead) {
        return Err(Refusal::Forbidden);
    }
    let l = match limit {
        Some(l) => l,
        None => DEFAULT_PATCH_NOTES_LIMIT,
    };
    let l = if l < 1 {
        1
    } else if l > MAX_PATCH_NOTES_LIMIT {
        MAX_PATCH_NOTES_LIMIT
    } else {
        l
    };
    let target = match target {
        Some(Ok(t)) => Some(t),
        Some(Err(())) => return Err(Refusal::Invalid),
        None => None,
    };
    let category = match category {
        Some(Ok(c)) => Some(c),
        Some(Err(())) => return Err(Refusal::Invalid),
        None => None,
    };
    let cursor = match cursor {
        Some(Ok(c)) => Some(c),
        Some(Err(_)) => return Err(Refusal::Invalid),
        None => None,
    };
    Ok(PatchNoteListing { limit: l as usize, target, category, cursor })
}

/// The image URLs of one patch note among rows of (patch note, URL), in
/// order.
pub open spec fn urls_of(rows: Seq<(u128, String)>, patch_note_id: u128) -> Seq<String>
    decreases rows.len(),
{
    if rows.len() == 0 {
        Seq::empty()
    } else {
        let rest = urls_of(rows.drop_last(), patch_note_id);
        if rows.last().0 == patch_note_id {
            rest.push(rows.last().1)
        } else {
            rest
        }
    }
}

/// The image URLs of one patch note among rows of (patch note, URL).
pub fn image_urls_for(rows: &[(u128, String)], patch_note_id: u128) -> (res: Vec<String>)
    ensures
        res@ == urls_of(rows@, patch_note_id),
{
    let mut out: Vec<String> = Vec::new();
    let mut i: usize = 0;
    while i < rows.len()
        invariant
            i <= rows@.len(),
            out@ == urls_of(rows@.take(i as int), patch_note_id),
        decreases rows@.len() - i,
    {
        proof {
            assert(rows@.take(i + 1).drop_last() =~= rows@.take(i as int));
            assert(rows@.take(i + 1).last() == rows@[i as int]);
        }
        if rows[i].0 == patch_note_id {
            out.push(rows[i].1.clone());
        }
        i = i + 1;
    }
    proof {
        assert(rows@.take(rows@.len() as int) =~= rows@);
    }
    out
}

/// The keys (creation instant, identifier) of a page read with one row
/// more than `limit`, newest first: the extra row is dropped, and the page
/// continues after the last row kept.
pub fn patch_note_page_cursor(rows: &mut Vec<(i128, u128)>, limit: usize) -> (res: Option<
    Cursor<i128, u128>,
>)
    requires
        !(limit == 0 && old(rows)@.len() == 1),
    ensures
        old(rows)@.len() <= limit ==> res is None && final(rows)@ == old(rows)@,
        old(rows)@.len() > limit ==> final(rows)@ == old(rows)@.drop_last() && res == Some(
            Cursor {
                value: old(rows)@[old(rows)@.len() - 2].0,
                tie_breaker: old(rows)@[old(rows)@.len() - 2].1,
            },
        ),
{
    crate::crawls::crawl_page_cursor(rows, limit)
}


/// A row of the `patch_notes` table as a listing reads it.
pub struct PatchNoteRecord {
    pub id: u128,
    pub target: String,
    pub category: String,
    pub title: String,
    pub body: String,
    pub created_at: i128,
}

/// A patch note as a listing shows it.
pub struct PatchNoteItem {
    pub id: u128,
    pub target: String,
    pub category: String,
    pub title: String,
    pub body: String,
    pub image_urls: Vec<String>,
    pub created_at: i128,
}

/// The listing item of a patch note row with its image URLs.
pub fn patch_note_from_record(record: PatchNoteRecord, image_urls: Vec<String>) -> (res: PatchNoteItem)
    ensures
        res.id == record.id,
        res.target == record.target,
        res.category == record.category,
        res.title == record.title,
        res.body == record.body,
        res.image_urls == image_urls,
        res.created_at == record.created_at,
{
    PatchNoteItem {
        id: record.id,
        target: record.target,
        category: record.category,
        title: record.title,
        body: record.body,
        image_urls,
        created_at: record.created_at,
    }
}

/// Law: a patch note listing reads as many notes as asked for when that is
/// between 1 and 100, the nearer bound otherwise, and 20 when no limit is
/// given; every listing reads between 1 and 100.
pub proof fn lemma_patch_note_limit_clamps(limit: Option<i32>)
    ensures
        forall|l: i32| 1 <= l <= 100 ==> #[trigger] patch_note_limit(Some(l)) == l,
        forall|l: i32| l > 100 ==> #[trigger] patch_note_limit(Some(l)) == 100,
        forall|l: i32| l < 1 ==> #[trigger] patch_note_limit(Some(l)) == 1,
        limit is None ==> patch_note_limit(limit) == 20,
        1 <= patch_note_limit(limit) <= 100,
{
}

} // verus!
