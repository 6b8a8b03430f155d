//! Uploaded files: their names, their kinds and where they are kept.

use vstd::prelude::*;
use vstd::string::*;

use crate::number::{decimal, push_decimal, push_unsigned};
use crate::text::{
    after_last, after_last_from, after_last_separator, before_last, before_last_separator, chars_of,
    contains, contains_text, ends_with, ends_with_text, is_alnum, is_alnum_char, is_before,
    law_last_separator, law_pieces, law_text_order, law_text_order_transitive, law_trim,
    law_trim_fixed, lower, lower_char, lower_of_char, opt_str, opt_view, pieces, split_pieces,
    starts_with_text, str_eq, strip_prefix, strip_prefix_of, take_chars, text_before, to_lower,
    trim, trim_matches, trim_of, trim_text, truncate_chars, views, CharClass,
};

verus! {

pub const MAX_SETTINGS_IMAGE_BYTES: usize = 8_388_608;

pub const MAX_POST_IMAGE_BYTES: usize = 8_388_608;

pub const MAX_POST_IMAGES: usize = 8;

/// The kind of file that uploads are stored as.
pub const COMPRESSED_IMAGE_EXTENSION: &'static str = "jpg";

pub const COMPRESSED_IMAGE_MIME: &'static str = "image/jpeg";

// ---------------------------------------------------------------------------
// Paths
// ---------------------------------------------------------------------------
/// Whether a piece between slashes counts as a component of a path.
pub open spec fn is_component(piece: Seq<char>) -> bool {
    piece.len() > 0 && piece != "."@
}

/// The last component among the first `n` pieces.
pub open spec fn last_component(parts: Seq<Seq<char>>, n: int) -> Option<Seq<char>>
    decreases n,
{
    if n <= 0 || n > parts.len() {
        None
    } else if is_component(parts[n - 1]) {
        Some(parts[n - 1])
    } else {
        last_component(parts, n - 1)
    }
}

/// The file that a path names: its last component, unless that goes up.
pub open spec fn file_name(path: Seq<char>) -> Option<Seq<char>> {
    let parts = pieces(path, '/');
    match last_component(parts, parts.len() as int) {
        Some(c) => if c == ".."@ {
            None
        } else {
            Some(c)
        },
        None => None,
    }
}

/// The part of a file name behind its last dot; none without a dot other than a leading one.
pub open spec fn name_extension(name: Seq<char>) -> Option<Seq<char>> {
    if after_last_from(name, '.', name.len() as int) <= 1 {
        None
    } else {
        Some(after_last(name, '.'))
    }
}

/// The part of a file name before its last dot; all of it without an extension.
pub open spec fn name_stem(name: Seq<char>) -> Seq<char> {
    if after_last_from(name, '.', name.len() as int) <= 1 {
        name
    } else {
        before_last(name, '.')
    }
}

pub fn file_name_of(path: &str) -> (r: Option<String>)
    ensures
        opt_view(r) == file_name(path@),
{
    let parts: Vec<String> = split_pieces(path, '/');
    let mut i: usize = parts.len();
    assert(views(parts@).len() == parts.len());
    while i > 0
        invariant
            i <= parts.len(),
            views(parts@) == pieces(path@, '/'),
            last_component(pieces(path@, '/'), i as int) == last_component(
                pieces(path@, '/'),
                pieces(path@, '/').len() as int,
            ),
        decreases i,
    {
        assert(views(parts@)[i - 1] == parts@[i - 1]@);
        if !parts[i - 1].as_str().is_empty() && !str_eq(parts[i - 1].as_str(), ".") {
            if str_eq(parts[i - 1].as_str(), "..") {
                return None;
            }
            return Some(parts[i - 1].clone());
        }
        i = i - 1;
    }
    None
}

fn has_extension(name: &str) -> (r: bool)
    ensures
        r == (after_last_from(name@, '.', name@.len() as int) > 1),
{
    let v: Vec<char> = chars_of(name);
    let mut j: usize = v.len();
    while j > 0 && v[j - 1] != '.'
        invariant
            j <= v.len(),
            v@ == name@,
            after_last_from(name@, '.', j as int) == after_last_from(
                name@,
                '.',
                name@.len() as int,
            ),
        decreases j,
    {
        j = j - 1;
    }
    j > 1
}

pub fn extension_of(name: &str) -> (r: Option<String>)
    ensures
        opt_view(r) == name_extension(name@),
{
    if has_extension(name) {
        Some(after_last_separator(name, '.'))
    } else {
        None
    }
}

pub fn stem_of(name: &str) -> (r: String)
    ensures
        r@ == name_stem(name@),
{
    if has_extension(name) {
        before_last_separator(name, '.')
    } else {
        name.to_owned()
    }
}

// ---------------------------------------------------------------------------
// Kinds of images
// ---------------------------------------------------------------------------
/// The extension for an image of the given media type.
pub open spec fn extension_for_mime(mime: Seq<char>) -> Option<Seq<char>> {
    if mime == "image/jpeg"@ || mime == "image/jpg"@ {
        Some("jpg"@)
    } else if mime == "image/png"@ {
        Some("png"@)
    } else if mime == "image/gif"@ {
        Some("gif"@)
    } else if mime == "image/webp"@ {
        Some("webp"@)
    } else if mime == "image/avif"@ {
        Some("avif"@)
    } else if mime == "image/bmp"@ {
        Some("bmp"@)
    } else {
        None
    }
}

/// The extension for an image with a file name that ends in the given one.
pub open spec fn known_extension(ext: Seq<char>) -> Option<Seq<char>> {
    if ext == "jpg"@ || ext == "jpeg"@ {
        Some("jpg"@)
    } else if ext == "png"@ || ext == "gif"@ || ext == "webp"@ || ext == "avif"@ || ext == "bmp"@ {
        Some(ext)
    } else {
        None
    }
}

/// The extension that a path ends in, in lower case.
pub open spec fn path_file_extension(path: Seq<char>) -> Option<Seq<char>> {
    match file_name(path) {
        Some(name) => match name_extension(name) {
            Some(ext) => Some(lower(ext)),
            None => None,
        },
        None => None,
    }
}

/// The kind of an image: by its media type, or else by its file name.
pub open spec fn image_kind(name: Option<Seq<char>>, mime: Option<Seq<char>>) -> Option<Seq<char>> {
    let by_mime = match mime {
        Some(m) => extension_for_mime(m),
        None => None,
    };
    match by_mime {
        Some(e) => Some(e),
        None => match name {
            Some(n) => match path_file_extension(n) {
                Some(ext) => known_extension(ext),
                None => None,
            },
            None => None,
        },
    }
}

fn mime_extension(mime: &str) -> (r: Option<String>)
    ensures
        opt_view(r) == extension_for_mime(mime@),
{
    if str_eq(mime, "image/jpeg") || str_eq(mime, "image/jpg") {
        Some("jpg".to_owned())
    } else if str_eq(mime, "image/png") {
        Some("png".to_owned())
    } else if str_eq(mime, "image/gif") {
        Some("gif".to_owned())
    } else if str_eq(mime, "image/webp") {
        Some("webp".to_owned())
    } else if str_eq(mime, "image/avif") {
        Some("avif".to_owned())
    } else if str_eq(mime, "image/bmp") {
        Some("bmp".to_owned())
    } else {
        None
    }
}

fn path_extension_text(path: &str) -> (r: Option<String>)
    ensures
        opt_view(r) == path_file_extension(path@),
{
    match file_name_of(path) {
        Some(name) => match extension_of(name.as_str()) {
            Some(ext) => Some(to_lower(ext.as_str())),
            None => None,
        },
        None => None,
    }
}

/// The kind of an uploaded image.
pub fn detect_post_image_extension(file_name: Option<&str>, content_type: Option<&str>) -> (r:
    Option<String>)
    ensures
        opt_view(r) == image_kind(opt_str(file_name), opt_str(content_type)),
{
    if let Some(mime) = content_type {
        if let Some(ext) = mime_extension(mime) {
            return Some(ext);
        }
    }
    match file_name {
        Some(name) => match path_extension_text(name) {
            Some(ext) => {
                if str_eq(ext.as_str(), "jpg") || str_eq(ext.as_str(), "jpeg") {
                    Some("jpg".to_owned())
                } else if str_eq(ext.as_str(), "png") || str_eq(ext.as_str(), "gif") || str_eq(
                    ext.as_str(),
                    "webp",
                ) || str_eq(ext.as_str(), "avif") || str_eq(ext.as_str(), "bmp") {
                    Some(ext)
                } else {
                    None
                }
            },
            None => None,
        },
        None => None,
    }
}

/// The kind of an image by what its name ends in and its media type holds.
pub open spec fn loose_image_kind(name: Seq<char>, mime: Seq<char>) -> Option<Seq<char>> {
    let n = lower(name);
    let m = lower(mime);
    if contains_text(m, "png"@) || ends_with_text(n, ".png"@) {
        Some("png"@)
    } else if contains_text(m, "webp"@) || ends_with_text(n, ".webp"@) {
        Some("webp"@)
    } else if contains_text(m, "jpeg"@) || contains_text(m, "jpg"@) || ends_with_text(n, ".jpg"@)
        || ends_with_text(n, ".jpeg"@) {
        Some("jpg"@)
    } else {
        None
    }
}

pub fn detect_image_extension(file_name: &str, content_type: &str) -> (r: Option<&'static str>)
    ensures
        opt_str(r) == loose_image_kind(file_name@, content_type@),
{
    let lower_name: String = to_lower(file_name);
    let lower_content: String = to_lower(content_type);
    let n: &str = lower_name.as_str();
    let m: &str = lower_content.as_str();
    if contains(m, "png") || ends_with(n, ".png") {
        Some("png")
    } else if contains(m, "webp") || ends_with(n, ".webp") {
        Some("webp")
    } else if contains(m, "jpeg") || contains(m, "jpg") || ends_with(n, ".jpg") || ends_with(
        n,
        ".jpeg",
    ) {
        Some("jpg")
    } else {
        None
    }
}

// ---------------------------------------------------------------------------
// Stored names
// ---------------------------------------------------------------------------
/// The characters that a stored post image may have in its name.
pub open spec fn post_name_char(c: char) -> bool {
    is_alnum(c) || c == '.' || c == '-' || c == '_'
}

/// A name with each unwanted character replaced by an underscore.
pub open spec fn underscored(s: Seq<char>) -> Seq<char> {
    Seq::new(
        s.len(),
        |i: int|
            if post_name_char(s[i]) {
                s[i]
            } else {
                '_'
            },
    )
}

pub open spec fn sanitized_name(name: Seq<char>) -> Seq<char> {
    let cleaned = trim_of(underscored(name), CharClass::Only('_'));
    if cleaned.len() == 0 {
        "image"@
    } else {
        cleaned
    }
}

/// A file name that is safe to store.
pub fn sanitize_post_filename(name: &str) -> (r: String)
    ensures
        r@ == sanitized_name(name@),
{
    let mut cleaned: String = String::new();
    for c in it: name.chars()
        invariant
            cleaned@ =~= underscored(name@.take(it.index())),
            it.seq() == name@,
    {
        if is_alnum_char(c) || c == '.' || c == '-' || c == '_' {
            cleaned.push(c);
        } else {
            cleaned.push('_');
        }
    }
    assert(cleaned@ =~= underscored(name@));
    let trimmed: String = trim_matches(cleaned.as_str(), CharClass::Only('_'));
    if trimmed.as_str().is_empty() {
        "image".to_owned()
    } else {
        trimmed
    }
}

/// A sanitized name is never empty.
pub proof fn law_sanitized_name_is_not_empty(name: Seq<char>)
    ensures
        sanitized_name(name).len() > 0,
{
    reveal_strlit("image");
}

/// A sanitized name holds nothing but letters, digits, dots, dashes and underscores; in particular
/// no slash.
pub proof fn law_sanitized_name_is_safe(name: Seq<char>, i: int)
    requires
        0 <= i < sanitized_name(name).len(),
    ensures
        post_name_char(sanitized_name(name)[i]),
        sanitized_name(name)[i] != '/',
{
    reveal_strlit("image");
    let u = underscored(name);
    law_trim(u, CharClass::Only('_'));
    if trim_of(u, CharClass::Only('_')).len() > 0 {
        let (a, b) = choose|a: int, b: int|
            #![trigger u.subrange(a, b)]
            0 <= a <= b <= u.len() && trim_of(u, CharClass::Only('_')) == u.subrange(a, b);
        assert(sanitized_name(name)[i] == u[a + i]);
    }
}

/// A stem with letters in lower case and each character that is neither letter nor digit
/// replaced by a dash.
pub open spec fn dashed(s: Seq<char>) -> Seq<char> {
    Seq::new(
        s.len(),
        |i: int|
            if is_alnum(s[i]) {
                lower_char(s[i])
            } else {
                '-'
            },
    )
}

pub open spec fn normalized_stem(file_name: Seq<char>) -> Seq<char> {
    take_chars(trim_of(dashed(before_last(file_name, '.')), CharClass::Only('-')), 64)
}

/// The stem of a file name in a form that can be stored.
pub fn normalize_uploaded_filename_stem(file_name: &str) -> (r: String)
    ensures
        r@ == normalized_stem(file_name@),
{
    let stem: String = before_last_separator(file_name, '.');
    let mut cleaned: String = String::new();
    for c in it: stem.as_str().chars()
        invariant
            cleaned@ =~= dashed(stem@.take(it.index())),
            it.seq() == stem@,
    {
        if is_alnum_char(c) {
            cleaned.push(lower_of_char(c));
        } else {
            cleaned.push('-');
        }
    }
    assert(cleaned@ =~= dashed(stem@));
    let trimmed: String = trim_matches(cleaned.as_str(), CharClass::Only('-'));
    truncate_chars(trimmed.as_str(), 64)
}

/// A stem with each character that is not a letter, a digit, a dash or an underscore replaced by
/// an underscore.
pub open spec fn plain_stem(s: Seq<char>) -> Seq<char> {
    Seq::new(
        s.len(),
        |i: int|
            if is_alnum(s[i]) || s[i] == '-' || s[i] == '_' {
                s[i]
            } else {
                '_'
            },
    )
}

pub open spec fn upload_stem(name: Option<Seq<char>>) -> Seq<char> {
    let stem = match name {
        Some(path) => match file_name(path) {
            Some(n) => name_stem(n),
            None => "image"@,
        },
        None => "image"@,
    };
    let cleaned = trim_of(plain_stem(stem), CharClass::Only('_'));
    if cleaned.len() == 0 {
        "image"@
    } else {
        take_chars(cleaned, 48)
    }
}

/// The stem of the name of an upload that may come without one.
pub fn normalize_upload_stem(raw: Option<&str>) -> (r: String)
    ensures
        r@ == upload_stem(opt_str(raw)),
{
    let stem: String = match raw {
        Some(path) => match file_name_of(path) {
            Some(n) => stem_of(n.as_str()),
            None => "image".to_owned(),
        },
        None => "image".to_owned(),
    };
    let mut cleaned: String = String::new();
    for c in it: stem.as_str().chars()
        invariant
            cleaned@ =~= plain_stem(stem@.take(it.index())),
            it.seq() == stem@,
    {
        if is_alnum_char(c) || c == '-' || c == '_' {
            cleaned.push(c);
        } else {
            cleaned.push('_');
        }
    }
    assert(cleaned@ =~= plain_stem(stem@));
    let trimmed: String = trim_matches(cleaned.as_str(), CharClass::Only('_'));
    if trimmed.as_str().is_empty() {
        "image".to_owned()
    } else {
        truncate_chars(trimmed.as_str(), 48)
    }
}

// ---------------------------------------------------------------------------
// Accepting uploads
// ---------------------------------------------------------------------------
/// An uploaded image with its name and its media type.
pub struct UploadedImage {
    pub file_name: String,
    pub content_type: String,
    pub bytes: Vec<u8>,
}

/// Takes a field of an upload as the image, unless it is empty.
pub fn accept_uploaded_field(
    file_name: Option<&str>,
    content_type: Option<&str>,
    bytes: Vec<u8>,
) -> (r: Option<UploadedImage>)
    ensures
        r is None == (bytes.len() == 0),
        r matches Some(u) ==> {
            &&& u.file_name@ == (match opt_str(file_name) {
                Some(n) => n,
                None => "upload"@,
            })
            &&& u.content_type@ == (match opt_str(content_type) {
                Some(t) => t,
                None => "application/octet-stream"@,
            })
            &&& u.bytes@ == bytes@
        },
{
    if bytes.len() == 0 {
        return None;
    }
    let name: String = match file_name {
        Some(n) => n.to_owned(),
        None => "upload".to_owned(),
    };
    let kind: String = match content_type {
        Some(t) => t.to_owned(),
        None => "application/octet-stream".to_owned(),
    };
    Some(UploadedImage { file_name: name, content_type: kind, bytes })
}

/// Prepares the bytes of an upload for storing.
pub fn compress_upload_to_jpeg(bytes: Vec<u8>) -> (r: Result<Vec<u8>, String>)
    ensures
        r is Ok == (bytes.len() > 0),
        r matches Ok(b) ==> b@ == bytes@,
        r matches Err(e) ==> e@ == "Uploaded file is empty"@,
{
    if bytes.len() == 0 {
        Err("Uploaded file is empty".to_owned())
    } else {
        Ok(bytes)
    }
}

/// Why an image for the settings page is refused.
pub open spec fn settings_image_error(
    len: nat,
    name: Option<Seq<char>>,
    mime: Option<Seq<char>>,
) -> Option<Seq<char>> {
    if len == 0 {
        Some("Uploaded file is empty"@)
    } else if len > MAX_SETTINGS_IMAGE_BYTES {
        Some("Image must be 8MB or smaller before compression"@)
    } else if image_kind(name, mime) is None {
        Some("Only image files are allowed"@)
    } else {
        None
    }
}

pub fn check_settings_image(
    len: usize,
    file_name: Option<&str>,
    content_type: Option<&str>,
) -> (r: Result<(), String>)
    ensures
        match r {
            Ok(_) => settings_image_error(len as nat, opt_str(file_name), opt_str(content_type))
                is None,
            Err(e) => settings_image_error(len as nat, opt_str(file_name), opt_str(content_type))
                == Some(e@),
        },
{
    if len == 0 {
        return Err("Uploaded file is empty".to_owned());
    }
    if len > MAX_SETTINGS_IMAGE_BYTES {
        return Err("Image must be 8MB or smaller before compression".to_owned());
    }
    match detect_post_image_extension(file_name, content_type) {
        Some(_) => Ok(()),
        None => Err("Only image files are allowed".to_owned()),
    }
}

/// Why an image for a post is refused.
pub open spec fn post_image_error(
    len: nat,
    name: Option<Seq<char>>,
    mime: Option<Seq<char>>,
) -> Option<Seq<char>> {
    if len == 0 {
        Some("Uploaded image is empty"@)
    } else if len > MAX_POST_IMAGE_BYTES {
        Some("Each image must be 8MB or smaller"@)
    } else if image_kind(name, mime) is None {
        Some("Only image files are allowed (.jpg, .png, .gif, .webp, .avif, .bmp)"@)
    } else {
        None
    }
}

pub fn check_post_image(
    len: usize,
    file_name: Option<&str>,
    content_type: Option<&str>,
) -> (r: Result<(), String>)
    ensures
        match r {
            Ok(_) => post_image_error(len as nat, opt_str(file_name), opt_str(content_type))
                is None,
            Err(e) => post_image_error(len as nat, opt_str(file_name), opt_str(content_type))
                == Some(e@),
        },
{
    if len == 0 {
        return Err("Uploaded image is empty".to_owned());
    }
    if len > MAX_POST_IMAGE_BYTES {
        return Err("Each image must be 8MB or smaller".to_owned());
    }
    match detect_post_image_extension(file_name, content_type) {
        Some(_) => Ok(()),
        None => Err(
            "Only image files are allowed (.jpg, .png, .gif, .webp, .avif, .bmp)".to_owned(),
        ),
    }
}

/// The name under which an image for the settings page is stored.
pub fn settings_image_name(timestamp: u128, file_name: Option<&str>) -> (r: String)
    ensures
        r@ == decimal(timestamp as int) + "_"@ + upload_stem(opt_str(file_name)) + ".jpg"@,
{
    let mut out: String = String::new();
    push_unsigned(&mut out, timestamp);
    assert(out@ =~= decimal(timestamp as int));
    out.append("_");
    out.append(normalize_upload_stem(file_name).as_str());
    out.append(".jpg");
    out
}

/// The address of a stored image for the settings page.
pub fn settings_image_url(user_id: i32, media_type: &str, stored_name: &str) -> (r: String)
    ensures
        r@ == "/public/uploads/user-images/"@ + decimal(user_id as int) + "/"@ + media_type@ + "/"@
            + stored_name@,
{
    let mut out: String = "/public/uploads/user-images/".to_owned();
    push_decimal(&mut out, user_id as i64);
    out.append("/");
    out.append(media_type);
    out.append("/");
    out.append(stored_name);
    out
}

/// The name under which an image of a post is stored.
pub fn post_image_name(timestamp: u128, user_id: i32, file_name: Option<&str>) -> (r: String)
    ensures
        r@ == decimal(timestamp as int) + "_"@ + decimal(user_id as int) + "_"@ + sanitized_name(
            match opt_str(file_name) {
                Some(n) => n,
                None => "image"@,
            },
        ) + ".jpg"@,
{
    let stem: String = match file_name {
        Some(n) => sanitize_post_filename(n),
        None => sanitize_post_filename("image"),
    };
    let mut out: String = String::new();
    push_unsigned(&mut out, timestamp);
    assert(out@ =~= decimal(timestamp as int));
    out.append("_");
    push_decimal(&mut out, user_id as i64);
    out.append("_");
    out.append(stem.as_str());
    out.append(".jpg");
    out
}

/// The address of a stored image of a post.
pub fn post_image_url(user_id: i32, stored_name: &str) -> (r: String)
    ensures
        r@ == "/public/uploads/posts/"@ + decimal(user_id as int) + "/"@ + stored_name@,
{
    let mut out: String = "/public/uploads/posts/".to_owned();
    push_decimal(&mut out, user_id as i64);
    out.append("/");
    out.append(stored_name);
    out
}

// ---------------------------------------------------------------------------
// Files on disk
// ---------------------------------------------------------------------------
/// Whether a path goes up somewhere.
pub open spec fn goes_up(path: Seq<char>) -> bool {
    exists|i: int| 0 <= i < pieces(path, '/').len() && #[trigger] pieces(path, '/')[i] == ".."@
}

/// The file behind the address of an uploaded image: under the folder of uploads, with a path that
/// is relative and does not go up.
pub open spec fn image_disk_path(file_url: Seq<char>) -> Option<Seq<char>> {
    match strip_prefix_of(file_url, "/public/uploads/user-images/"@) {
        Some(suffix) => if trim(suffix).len() == 0 || suffix[0] == '/' || goes_up(suffix) {
            None
        } else {
            Some("public/uploads/user-images/"@ + suffix)
        },
        None => None,
    }
}

fn path_goes_up(path: &str) -> (r: bool)
    ensures
        r == goes_up(path@),
{
    let parts: Vec<String> = split_pieces(path, '/');
    let mut i: usize = 0;
    while i < parts.len()
        invariant
            i <= parts.len(),
            views(parts@) == pieces(path@, '/'),
            forall|j: int| 0 <= j < i ==> #[trigger] pieces(path@, '/')[j] != ".."@,
        decreases parts.len() - i,
    {
        assert(views(parts@)[i as int] == parts@[i as int]@);
        if str_eq(parts[i].as_str(), "..") {
            assert(pieces(path@, '/')[i as int] == ".."@);
            return true;
        }
        i = i + 1;
    }
    assert(views(parts@).len() == parts.len());
    false
}

pub fn uploaded_user_image_disk_path(file_url: &str) -> (r: Option<String>)
    ensures
        opt_view(r) == image_disk_path(file_url@),
{
    match strip_prefix(file_url, "/public/uploads/user-images/") {
        Some(suffix) => {
            let trimmed: String = trim_text(suffix.as_str());
            if trimmed.as_str().is_empty() {
                return None;
            }
            proof {
                if suffix@.len() == 0 {
                    assert(trim_of(suffix@, CharClass::White).len() == 0) by {
                        law_trim(suffix@, CharClass::White);
                    }
                }
            }
            if suffix.as_str().get_char(0) == '/' || path_goes_up(suffix.as_str()) {
                return None;
            }
            Some("public/uploads/user-images/".to_owned().concat(suffix.as_str()))
        },
        None => None,
    }
}

// ---------------------------------------------------------------------------
// Cropping
// ---------------------------------------------------------------------------
pub struct SelectUploadedImageForm {
    pub file_url: String,
    pub crop_apply: Option<String>,
    pub crop_x: Option<String>,
    pub crop_y: Option<String>,
    pub crop_zoom: Option<String>,
}

/// The trimmed text of a field, or a default for one that is missing.
pub open spec fn field_or(field: Option<Seq<char>>, default: Seq<char>) -> Seq<char> {
    match field {
        Some(v) => trim(v),
        None => trim(default),
    }
}

fn field_text(field: &Option<String>, default: &str) -> (r: String)
    ensures
        r@ == field_or(opt_view(*field), default@),
{
    match field {
        Some(v) => trim_text(v.as_str()),
        None => trim_text(default),
    }
}

/// The style that crops an image as a form asks for.
pub open spec fn crop_style(form: SelectUploadedImageForm) -> Seq<char> {
    if form.crop_apply is None || (form.crop_apply->0)@.len() == 0 {
        Seq::empty()
    } else {
        "object-position: "@ + field_or(opt_view(form.crop_x), "50"@) + "% "@ + field_or(
            opt_view(form.crop_y),
            "50"@,
        ) + "%; transform: scale("@ + field_or(opt_view(form.crop_zoom), "1"@) + ");"@
    }
}

pub fn crop_style_from_form(form: &SelectUploadedImageForm) -> (r: String)
    ensures
        r@ == crop_style(*form),
{
    let apply: bool = match &form.crop_apply {
        Some(v) => !v.as_str().is_empty(),
        None => false,
    };
    if !apply {
        return String::new();
    }
    let mut out: String = "object-position: ".to_owned();
    out.append(field_text(&form.crop_x, "50").as_str());
    out.append("% ");
    out.append(field_text(&form.crop_y, "50").as_str());
    out.append("%; transform: scale(");
    out.append(field_text(&form.crop_zoom, "1").as_str());
    out.append(");");
    out
}

/// A form that applies a crop and gives all three values puts them, without the space around them,
/// in their places of the style.
pub proof fn law_crop_style_shows_the_values(
    form: SelectUploadedImageForm,
    x: String,
    y: String,
    zoom: String,
)
    requires
        form.crop_apply matches Some(v) && v@.len() > 0,
        form.crop_x == Some(x),
        form.crop_y == Some(y),
        form.crop_zoom == Some(zoom),
    ensures
        crop_style(form) == "object-position: "@ + trim(x@) + "% "@ + trim(y@)
            + "%; transform: scale("@ + trim(zoom@) + ");"@,
{
}

/// A value that a form leaves out is the middle of the image, or no zoom.
pub proof fn law_crop_style_defaults(form: SelectUploadedImageForm, whole: SelectUploadedImageForm)
    requires
        form.crop_apply matches Some(v) && v@.len() > 0,
        whole.crop_apply matches Some(v) && v@.len() > 0,
        whole.crop_x matches Some(v) && (form.crop_x == whole.crop_x || (form.crop_x is None && v@
            == "50"@)),
        whole.crop_y matches Some(v) && (form.crop_y == whole.crop_y || (form.crop_y is None && v@
            == "50"@)),
        whole.crop_zoom matches Some(v) && (form.crop_zoom == whole.crop_zoom || (form.crop_zoom
            is None && v@ == "1"@)),
    ensures
        crop_style(form) == crop_style(whole),
{
}

/// A form that applies no crop gives no style.
pub proof fn law_no_crop_no_style(form: SelectUploadedImageForm)
    ensures
        crop_style(form).len() == 0 <==> (form.crop_apply is None || (form.crop_apply->0)@.len()
            == 0),
{
    reveal_strlit("object-position: ");
}

proof fn lemma_same_around(a: Seq<char>, x: Seq<char>, y: Seq<char>, b: Seq<char>)
    requires
        a + x + b == a + y + b,
    ensures
        x == y,
{
    assert((a + x + b).len() == a.len() + x.len() + b.len());
    assert((a + y + b).len() == a.len() + y.len() + b.len());
    assert forall|i: int| 0 <= i < x.len() implies x[i] == y[i] by {
        assert((a + x + b)[a.len() + i] == x[i]);
        assert((a + y + b)[a.len() + i] == y[i]);
    }
    assert(x =~= y);
}

/// Each of the three values counts: forms that differ in one of them alone, beyond the space
/// around it, give different styles.
pub proof fn law_crop_style_tells_values_apart(
    a: SelectUploadedImageForm,
    b: SelectUploadedImageForm,
)
    requires
        a.crop_apply matches Some(v) && v@.len() > 0,
        b.crop_apply matches Some(v) && v@.len() > 0,
        a.crop_x is Some && a.crop_y is Some && a.crop_zoom is Some,
        b.crop_x is Some && b.crop_y is Some && b.crop_zoom is Some,
        ({
            let x = trim((a.crop_x->0)@) == trim((b.crop_x->0)@);
            let y = trim((a.crop_y->0)@) == trim((b.crop_y->0)@);
            let zoom = trim((a.crop_zoom->0)@) == trim((b.crop_zoom->0)@);
            (!x && y && zoom) || (x && !y && zoom) || (x && y && !zoom)
        }),
    ensures
        crop_style(a) != crop_style(b),
{
    let (ax, bx) = (trim((a.crop_x->0)@), trim((b.crop_x->0)@));
    let (ay, by) = (trim((a.crop_y->0)@), trim((b.crop_y->0)@));
    let (az, bz) = (trim((a.crop_zoom->0)@), trim((b.crop_zoom->0)@));
    let p = "object-position: "@;
    let q = "% "@;
    let r = "%; transform: scale("@;
    let e = ");"@;
    if crop_style(a) == crop_style(b) {
        if ax != bx {
            let tail = q + ay + r + az + e;
            assert(crop_style(a) =~= p + ax + tail);
            assert(crop_style(b) =~= p + bx + tail);
            lemma_same_around(p, ax, bx, tail);
        } else if ay != by {
            let head = p + ax + q;
            let tail = r + az + e;
            assert(crop_style(a) =~= head + ay + tail);
            assert(crop_style(b) =~= head + by + tail);
            lemma_same_around(head, ay, by, tail);
        } else {
            let head = p + ax + q + ay + r;
            assert(crop_style(a) =~= head + az + e);
            assert(crop_style(b) =~= head + bz + e);
            lemma_same_around(head, az, bz, e);
        }
    }
}

/// Whether a field of a form says yes.
pub open spec fn says_yes(field: Option<Seq<char>>) -> bool {
    match field {
        Some(v) => trim(v) == "1"@ || trim(v) == "true"@ || trim(v) == "yes"@ || trim(v) == "on"@,
        None => false,
    }
}

/// Whether a form asks for cropping at all: it says so, or it gives one of the values.
pub fn crop_is_requested(form: &SelectUploadedImageForm) -> (r: bool)
    ensures
        r == (says_yes(opt_view(form.crop_apply)) || form.crop_x is Some || form.crop_y is Some
            || form.crop_zoom is Some),
{
    let explicit: bool = match &form.crop_apply {
        Some(v) => {
            let t: String = trim_text(v.as_str());
            let a: &str = t.as_str();
            str_eq(a, "1") || str_eq(a, "true") || str_eq(a, "yes") || str_eq(a, "on")
        },
        None => false,
    };
    explicit || form.crop_x.is_some() || form.crop_y.is_some() || form.crop_zoom.is_some()
}

// ---------------------------------------------------------------------------
// Images that were stored before
// ---------------------------------------------------------------------------
/// Whether the texts stand in strictly rising order.
pub open spec fn texts_rise(texts: Seq<String>) -> bool {
    forall|i: int, j: int|
        #![trigger texts[i], texts[j]]
        0 <= i < j < texts.len() ==> text_before(texts[i]@, texts[j]@)
}

pub open spec fn has_view(texts: Seq<String>, text: Seq<char>) -> bool {
    exists|i: int| 0 <= i < texts.len() && (#[trigger] texts[i])@ == text
}

proof fn lemma_insert_text(before: Seq<String>, p: int, text: String)
    requires
        texts_rise(before),
        0 <= p <= before.len(),
        forall|j: int| 0 <= j < p ==> text_before((#[trigger] before[j])@, text@),
        p < before.len() ==> text_before(text@, before[p]@),
    ensures
        texts_rise(before.insert(p, text)),
        forall|t: Seq<char>|
            #[trigger] has_view(before.insert(p, text), t) == (has_view(before, t) || t == text@),
{
    let after = before.insert(p, text);
    assert forall|i: int, j: int|
        #![trigger after[i], after[j]]
        0 <= i < j < after.len() implies text_before(after[i]@, after[j]@) by {
        if j < p {
            assert(after[i] == before[i] && after[j] == before[j]);
        } else if j == p {
            assert(after[i] == before[i]);
        } else if i == p {
            assert(after[j] == before[j - 1]);
            if j - 1 > p {
                law_text_order_transitive(text@, before[p]@, before[j - 1]@);
            }
        } else if i < p {
            assert(after[i] == before[i] && after[j] == before[j - 1]);
        } else {
            assert(after[i] == before[i - 1] && after[j] == before[j - 1]);
        }
    }
    assert forall|t: Seq<char>| #[trigger]
        has_view(after, t) == (has_view(before, t) || t == text@) by {
        if has_view(before, t) {
            let k = choose|k: int| 0 <= k < before.len() && (#[trigger] before[k])@ == t;
            if k < p {
                assert(after[k]@ == t);
            } else {
                assert(after[k + 1]@ == t);
            }
        }
        if t == text@ {
            assert(after[p]@ == t);
        }
        if has_view(after, t) {
            let k = choose|k: int| 0 <= k < after.len() && (#[trigger] after[k])@ == t;
            if k < p {
                assert(before[k]@ == t);
            } else if k > p {
                assert(before[k - 1]@ == t);
            }
        }
    }
}

fn insert_text(texts: &mut Vec<String>, text: &String)
    requires
        texts_rise(old(texts)@),
    ensures
        texts_rise(final(texts)@),
        forall|t: Seq<char>|
            #[trigger] has_view(final(texts)@, t) == (has_view(old(texts)@, t) || t == text@),
{
    let ghost before = texts@;
    let mut p: usize = 0;
    while p < texts.len() && is_before(texts[p].as_str(), text.as_str())
        invariant
            p <= texts.len(),
            texts@ == before,
            forall|j: int| 0 <= j < p ==> text_before((#[trigger] before[j])@, text@),
        decreases texts.len() - p,
    {
        p = p + 1;
    }
    if p < texts.len() && str_eq(texts[p].as_str(), text.as_str()) {
        assert(before[p as int]@ == text@);
        return;
    }
    proof {
        if p < before.len() {
            law_text_order(before[p as int]@, text@);
        }
        lemma_insert_text(before, p as int, *text);
    }
    texts.insert(p, text.clone());
}

/// The addresses of images that were stored before, each once, in the order of their texts.
pub fn distinct_image_urls(urls: &Vec<String>) -> (r: Vec<String>)
    ensures
        texts_rise(r@),
        forall|t: Seq<char>| #[trigger] has_view(r@, t) == has_view(urls@, t),
{
    let mut out: Vec<String> = Vec::new();
    let mut i: usize = 0;
    while i < urls.len()
        invariant
            i <= urls.len(),
            texts_rise(out@),
            forall|t: Seq<char>| #[trigger] has_view(out@, t) == has_view(urls@.take(i as int), t),
        decreases urls.len() - i,
    {
        let ghost a = urls@.take(i as int);
        let ghost b = urls@.take(i + 1);
        insert_text(&mut out, &urls[i]);
        proof {
            assert(b =~= a.push(urls@[i as int]));
            assert forall|t: Seq<char>|
                has_view(b, t) == (has_view(a, t) || t == urls@[i as int]@) by {
                if has_view(a, t) {
                    let k = choose|k: int| 0 <= k < a.len() && (#[trigger] a[k])@ == t;
                    assert(b[k]@ == t);
                }
                if t == urls@[i as int]@ {
                    assert(b[i as int]@ == t);
                }
                if has_view(b, t) {
                    let k = choose|k: int| 0 <= k < b.len() && (#[trigger] b[k])@ == t;
                    if k < i {
                        assert(a[k]@ == t);
                    }
                }
            }
        }
        i = i + 1;
    }
    assert(urls@.take(urls.len() as int) =~= urls@);
    out
}

/// The new address of an image after it was compressed, where it has one that differs.
pub fn moved_image_url(old_url: &str, compressed: Option<String>) -> (r: Option<String>)
    ensures
        r == match compressed {
            Some(new_url) => if new_url@ == old_url@ {
                None
            } else {
                Some(new_url)
            },
            None => None,
        },
{
    match compressed {
        Some(new_url) => {
            if str_eq(new_url.as_str(), old_url) {
                None
            } else {
                Some(new_url)
            }
        },
        None => None,
    }
}

// ---------------------------------------------------------------------------
// What becomes of uploads
// ---------------------------------------------------------------------------
proof fn lemma_pieces_end(path: Seq<char>, name: Seq<char>)
    requires
        !name.contains('/'),
    ensures
        pieces(path.push('/') + name, '/').len() > 0,
        pieces(path.push('/') + name, '/').last() == name,
    decreases path.len(),
{
    let s = path.push('/') + name;
    if path.contains('/') {
        let (a, b) = lemma_first_slash(path);
        lemma_pieces_end(b, name);
        assert(s =~= a.push('/') + (b.push('/') + name));
        law_pieces(a, '/', b.push('/') + name);
    } else {
        law_pieces(path, '/', name);
        law_pieces(name, '/', Seq::empty());
    }
}

proof fn lemma_first_slash(path: Seq<char>) -> (r: (Seq<char>, Seq<char>))
    requires
        path.contains('/'),
    ensures
        path == r.0.push('/') + r.1,
        !r.0.contains('/'),
        r.1.len() < path.len(),
    decreases path.len(),
{
    if path[0] == '/' {
        assert(path =~= Seq::<char>::empty().push('/') + path.drop_first());
        (Seq::empty(), path.drop_first())
    } else {
        let rest = path.drop_first();
        assert(rest.contains('/')) by {
            let i = choose|i: int| 0 <= i < path.len() && path[i] == '/';
            assert(rest[i - 1] == '/');
        }
        let (a, b) = lemma_first_slash(rest);
        let first = seq![path[0]] + a;
        assert(first.push('/') + b =~= seq![path[0]] + (a.push('/') + b));
        assert(path =~= seq![path[0]] + rest);
        assert(!first.contains('/')) by {
            if first.contains('/') {
                let i = choose|i: int| 0 <= i < first.len() && first[i] == '/';
                assert(a[i - 1] == '/');
            }
        }
        (first, b)
    }
}

/// A path names the file behind its last slash.
pub proof fn law_file_names(folder: Seq<char>, name: Seq<char>)
    requires
        !name.contains('/'),
        name.len() > 0,
        name != "."@,
        name != ".."@,
    ensures
        file_name(name) == Some(name),
        file_name(folder.push('/') + name) == Some(name),
{
    law_pieces(name, '/', Seq::empty());
    lemma_pieces_end(folder, name);
}

/// The extension of a file name is what stands behind its last dot, and its stem what stands before;
/// a name without a dot, or with a leading one alone, is all stem.
pub proof fn law_file_extensions(stem: Seq<char>, extension: Seq<char>)
    requires
        !extension.contains('.'),
    ensures
        stem.len() > 0 ==> name_extension(stem.push('.') + extension) == Some(extension),
        stem.len() > 0 ==> name_stem(stem.push('.') + extension) == stem,
        name_extension(extension) is None,
        name_stem(extension) == extension,
        name_extension(seq!['.'] + extension) is None,
        name_stem(seq!['.'] + extension) == seq!['.'] + extension,
{
    law_last_separator(stem, '.', extension);
    law_last_separator(Seq::empty(), '.', extension);
    assert(Seq::<char>::empty().push('.') =~= seq!['.']);
}

/// The kind of an image goes by its media type.
pub proof fn law_media_types(name: Option<Seq<char>>)
    ensures
        image_kind(name, Some("image/jpeg"@)) == Some("jpg"@),
        image_kind(name, Some("image/jpg"@)) == Some("jpg"@),
        image_kind(name, Some("image/png"@)) == Some("png"@),
        image_kind(name, Some("image/gif"@)) == Some("gif"@),
        image_kind(name, Some("image/webp"@)) == Some("webp"@),
        image_kind(name, Some("image/avif"@)) == Some("avif"@),
        image_kind(name, Some("image/bmp"@)) == Some("bmp"@),
{
    reveal_strlit("image/jpeg");
    reveal_strlit("image/jpg");
    reveal_strlit("image/png");
    reveal_strlit("image/gif");
    reveal_strlit("image/webp");
    reveal_strlit("image/avif");
    reveal_strlit("image/bmp");
    assert("image/jpeg"@[6] == 'j' && "image/jpg"@[6] == 'j' && "image/png"@[6] == 'p'
        && "image/gif"@[6] == 'g' && "image/webp"@[6] == 'w' && "image/avif"@[6] == 'a'
        && "image/bmp"@[6] == 'b');
    assert("image/jpeg"@.len() == 10 && "image/jpg"@.len() == 9);
}

/// Whether a media type is one of an image that is taken.
pub open spec fn is_image_type(mime: Seq<char>) -> bool {
    mime == "image/jpeg"@ || mime == "image/jpg"@ || mime == "image/png"@ || mime == "image/gif"@
        || mime == "image/webp"@ || mime == "image/avif"@ || mime == "image/bmp"@
}

/// Where the media type says nothing, the kind of an image goes by the extension of its file,
/// whatever the case; a file of another extension, or without one, is no image.
pub proof fn law_kinds_by_name(stem: Seq<char>, extension: Seq<char>, mime: Option<Seq<char>>)
    requires
        stem.len() > 0,
        !stem.contains('/'),
        !extension.contains('.'),
        !extension.contains('/'),
        extension.len() > 1,
        mime matches Some(m) ==> !is_image_type(m),
    ensures
        ({
            let kind = image_kind(Some(stem.push('.') + extension), mime);
            let e = lower(extension);
            &&& e == "jpg"@ || e == "jpeg"@ ==> kind == Some("jpg"@)
            &&& e == "png"@ || e == "gif"@ || e == "webp"@ || e == "avif"@ || e == "bmp"@ ==> kind
                == Some(e)
            &&& !(e == "jpg"@ || e == "jpeg"@ || e == "png"@ || e == "gif"@ || e == "webp"@ || e
                == "avif"@ || e == "bmp"@) ==> kind is None
        }),
        image_kind(None, mime) is None,
{
    let name = stem.push('.') + extension;
    reveal_strlit(".");
    reveal_strlit("..");
    reveal_strlit("jpg");
    reveal_strlit("jpeg");
    reveal_strlit("png");
    reveal_strlit("gif");
    reveal_strlit("webp");
    reveal_strlit("avif");
    reveal_strlit("bmp");
    assert("jpg"@[0] == 'j' && "jpeg"@[0] == 'j' && "png"@[0] == 'p' && "gif"@[0] == 'g'
        && "webp"@[0] == 'w' && "avif"@[0] == 'a' && "bmp"@[0] == 'b');
    assert(name.len() > 2);
    assert(!name.contains('/')) by {
        if name.contains('/') {
            let i = choose|i: int| 0 <= i < name.len() && name[i] == '/';
            if i < stem.len() {
                assert(stem[i] == '/');
            } else {
                assert(extension[i - stem.len() - 1] == '/');
            }
        }
    }
    law_file_names(Seq::empty(), name);
    law_file_extensions(stem, extension);
}

/// The kind of an image by the words in its media type or by the end of its name, whatever the case.
pub proof fn law_loose_kinds(name: Seq<char>, mime: Seq<char>)
    ensures
        ({
            let n = lower(name);
            let m = lower(mime);
            let png = contains_text(m, "png"@) || ends_with_text(n, ".png"@);
            let webp = contains_text(m, "webp"@) || ends_with_text(n, ".webp"@);
            let jpg = contains_text(m, "jpeg"@) || contains_text(m, "jpg"@) || ends_with_text(
                n,
                ".jpg"@,
            ) || ends_with_text(n, ".jpeg"@);
            &&& png ==> loose_image_kind(name, mime) == Some("png"@)
            &&& !png && webp ==> loose_image_kind(name, mime) == Some("webp"@)
            &&& !png && !webp && jpg ==> loose_image_kind(name, mime) == Some("jpg"@)
            &&& !png && !webp && !jpg ==> loose_image_kind(name, mime) is None
        }),
{
}

/// An image is refused if and only if it is empty, has more than eight megabytes, or is of no known
/// kind.
pub proof fn law_refused_images(len: nat, name: Option<Seq<char>>, mime: Option<Seq<char>>)
    ensures
        settings_image_error(len, name, mime) is None <==> 0 < len <= 8 * 1024 * 1024 && image_kind(
            name,
            mime,
        ) is Some,
        post_image_error(len, name, mime) is None <==> 0 < len <= 8 * 1024 * 1024 && image_kind(
            name,
            mime,
        ) is Some,
        len == 0 ==> settings_image_error(len, name, mime) == Some("Uploaded file is empty"@)
            && post_image_error(len, name, mime) == Some("Uploaded image is empty"@),
        len > 8 * 1024 * 1024 ==> settings_image_error(len, name, mime) == Some(
            "Image must be 8MB or smaller before compression"@,
        ) && post_image_error(len, name, mime) == Some("Each image must be 8MB or smaller"@),
        0 < len <= 8 * 1024 * 1024 && image_kind(name, mime) is None ==> settings_image_error(
            len,
            name,
            mime,
        ) == Some("Only image files are allowed"@) && post_image_error(len, name, mime) == Some(
            "Only image files are allowed (.jpg, .png, .gif, .webp, .avif, .bmp)"@,
        ),
{
}

/// A name of letters, digits, dots, dashes and underscores is kept, but for underscores around it.
pub proof fn law_clean_names_stay(name: Seq<char>)
    requires
        name.len() > 0,
        forall|i: int|
            0 <= i < name.len() ==> is_alnum(#[trigger] name[i]) || name[i] == '.' || name[i] == '-'
                || name[i] == '_',
        name[0] != '_',
        name.last() != '_',
    ensures
        sanitized_name(name) == name,
{
    assert(underscored(name) =~= name);
    law_trim_fixed(name, CharClass::Only('_'));
}

/// Another character of a name becomes an underscore, one for one.
pub proof fn law_unclean_characters(a: Seq<char>, c: char, b: Seq<char>)
    requires
        a.len() > 0,
        b.len() > 0,
        forall|i: int| 0 <= i < a.len() ==> is_alnum(#[trigger] a[i]),
        forall|i: int| 0 <= i < b.len() ==> is_alnum(#[trigger] b[i]),
        !is_alnum(c),
        c != '.',
        c != '-',
    ensures
        sanitized_name(a.push(c) + b) == a.push('_') + b,
        normalized_stem(a.push(c) + b + ".x"@) == take_chars(lower(a).push('-') + lower(b), 64),
        upload_stem(Some(a.push(c) + b + ".x"@)) == take_chars(
            a.push('_') + b,
            48,
        ) || c == '/',
{
    reveal_strlit(".x");
    reveal_strlit(".");
    reveal_strlit("..");
    let name = a.push(c) + b;
    let want = a.push('_') + b;
    assert(underscored(name) =~= want);
    assert(want[0] == a[0] && want.last() == b.last());
    assert(is_alnum(a[0]) && is_alnum(b[b.len() - 1]));
    law_trim_fixed(want, CharClass::Only('_'));
    // The stem before the extension.
    let x = seq!['x'];
    assert(name + ".x"@ =~= name.push('.') + x);
    assert(!x.contains('.'));
    law_last_separator(name, '.', x);
    let dash = lower(a).push('-') + lower(b);
    assert(dashed(name) =~= dash);
    assert(dash[0] == lower_char(a[0]) && dash.last() == lower_char(b.last()));
    law_trim_fixed(dash, CharClass::Only('-'));
    if c != '/' {
        let full = name.push('.') + x;
        assert(full.len() > 2);
        assert(!full.contains('/')) by {
            if full.contains('/') {
                let i = choose|i: int| 0 <= i < full.len() && full[i] == '/';
                if i < a.len() {
                    assert(full[i] == a[i]);
                } else if i == a.len() {
                    assert(full[i] == c);
                } else if i < name.len() {
                    assert(full[i] == b[i - a.len() - 1]);
                }
            }
        }
        law_file_names(Seq::empty(), full);
        law_file_extensions(name, x);
        assert(plain_stem(name) =~= want);
    }
}

/// The file of an uploaded image lies in the folder of uploads, under the rest of its address; there
/// is none for an address elsewhere, a blank rest, or one that begins with a slash or goes up.
pub proof fn law_image_files(rest: Seq<char>, url: Seq<char>)
    ensures
        trim(rest).len() > 0 && rest[0] != '/' && !goes_up(rest) ==> image_disk_path(
            "/public/uploads/user-images/"@ + rest,
        ) == Some("public/uploads/user-images/"@ + rest),
        trim(rest).len() == 0 || rest[0] == '/' || goes_up(rest) ==> image_disk_path(
            "/public/uploads/user-images/"@ + rest,
        ) is None,
        !starts_with_text(url, "/public/uploads/user-images/"@) ==> image_disk_path(url) is None,
{
    let prefix = "/public/uploads/user-images/"@;
    assert((prefix + rest).subrange(0, prefix.len() as int) =~= prefix);
    assert((prefix + rest).skip(prefix.len() as int) =~= rest);
}

/// A path goes up where one of its parts is two dots, wherever it stands.
pub proof fn law_paths_that_go_up(first: Seq<char>, rest: Seq<char>)
    requires
        !first.contains('/'),
    ensures
        goes_up(first) <==> first == ".."@,
        goes_up(first.push('/') + rest) <==> first == ".."@ || goes_up(rest),
{
    law_pieces(first, '/', rest);
    let p = pieces(rest, '/');
    let all = seq![first] + p;
    assert(pieces(first, '/')[0] == first);
    assert(all[0] == first);
    if goes_up(rest) {
        let i = choose|i: int| 0 <= i < p.len() && #[trigger] p[i] == ".."@;
        assert(all[i + 1] == p[i]);
        assert(pieces(first.push('/') + rest, '/')[i + 1] == ".."@);
    }
    if goes_up(first.push('/') + rest) {
        let i = choose|i: int|
            0 <= i < pieces(first.push('/') + rest, '/').len() && #[trigger] pieces(
                first.push('/') + rest,
                '/',
            )[i] == ".."@;
        if i > 0 {
            assert(p[i - 1] == all[i]);
        }
    }
    if first == ".."@ {
        assert(pieces(first.push('/') + rest, '/')[0] == ".."@);
    }
}

/// A field of a form says yes by one of four words, with or without space around it.
pub proof fn law_yes_words(field: Seq<char>)
    ensures
        says_yes(Some(field)) <==> trim(field) == "1"@ || trim(field) == "true"@ || trim(field)
            == "yes"@ || trim(field) == "on"@,
        !says_yes(None),
{
}

} // verus!
