//! Image handling around a section's `images` directory: validating file
//! types, locating stored images and shaping upload results. Streams and
//! file writes stay with the caller.

use vstd::prelude::*;

use crate::errors::StoreError;
use crate::paths::{section_file_path, spec_section_file, IMAGE_NAME};

verus! {

/// Largest accepted image, in bytes.
pub const MAX_IMAGE_SIZE: usize = 1048576;

/// Length of a stored image's generated name.
pub const IMAGE_NAME_LEN: usize = 10;

/// Fields of an image-upload request.
pub struct UploadImageReq {
    /// Key of the textbook the images belong to.
    pub textbook_key: String,
    /// Key of the catalog section.
    pub catalog_key: String,
    /// Question the images belong to, if any.
    pub id: Option<String>,
}

/// Fields of an image-deletion request.
pub struct DeleteImageReq {
    /// Key of the textbook the image belongs to.
    pub textbook_key: String,
    /// Key of the catalog section.
    pub catalog_key: String,
    /// Question the image belongs to, if any.
    pub id: Option<String>,
    /// Stored name of the image.
    pub filename: String,
}

/// Where one stored image lives.
pub struct LocalImageInfo {
    /// Key of the textbook the image belongs to.
    pub textbook_key: String,
    /// Key of the catalog section.
    pub catalog_key: String,
    /// Question the image belongs to, if any.
    pub id: Option<String>,
    /// Stored name of the image.
    pub filename: String,
}

/// What one accepted upload reports back.
pub struct UploadImageResp {
    /// Name the file was uploaded under.
    pub original_name: String,
    /// Size of the stored file, in bytes.
    pub size: usize,
    /// Name the file is stored under.
    pub name: String,
    /// Where the stored file can be read back.
    pub url: String,
}

/// The two characters stand for the same letter of an accepted image
/// extension, in either case.
pub open spec fn ci_char(a: char, b: char) -> bool {
    ||| a == b
    ||| (b == 'j' && a == 'J')
    ||| (b == 'p' && a == 'P')
    ||| (b == 'g' && a == 'G')
    ||| (b == 'e' && a == 'E')
    ||| (b == 'n' && a == 'N')
    ||| (b == 'i' && a == 'I')
    ||| (b == 'f' && a == 'F')
}

/// The extension spells the lowercase word, ignoring case.
pub open spec fn ci_matches(ext: Seq<char>, word: Seq<char>) -> bool {
    ext.len() == word.len() && forall|i: int| 0 <= i < ext.len() ==> ci_char(ext[i], #[trigger] word[i])
}

/// The extension names an accepted image format.
pub open spec fn spec_allowed_extension(ext: Seq<char>) -> bool {
    ||| ci_matches(ext, "jpg"@)
    ||| ci_matches(ext, "jpeg"@)
    ||| ci_matches(ext, "png"@)
    ||| ci_matches(ext, "gif"@)
}

/// The extension of a file name: what follows its last dot, when the dot
/// is neither first nor missing.
pub open spec fn spec_extension(name: Seq<char>) -> Option<Seq<char>> {
    if exists|k: int| 0 < k < name.len() && name[k] == '.' && (forall|j: int|
        k < j < name.len() ==> name[j] != '.') {
        let k = choose|k: int|
            0 < k < name.len() && name[k] == '.' && (forall|j: int|
                k < j < name.len() ==> name[j] != '.');
        Option::Some(name.subrange(k + 1, name.len() as int))
    } else {
        Option::None
    }
}

/// The extension of a file name, when it has one.
pub fn extension_of(filename: &str) -> (r: Option<&str>)
    ensures
        match r {
            Option::Some(e) => spec_extension(filename@) == Option::Some(e@),
            Option::None => spec_extension(filename@) is None,
        },
{
    let len = filename.unicode_len();
    let mut k: usize = len;
    for x in 0..len
        invariant
            len == filename@.len(),
            k <= len,
            k < len ==> filename@[k as int] == '.',
            forall|j: int| k < j < x ==> filename@[j] != '.',
            k == len ==> forall|j: int| 0 <= j < x ==> filename@[j] != '.',
    {
        if filename.get_char(x) == '.' {
            k = x;
        }
    }
    if k == len || k == 0 {
        proof {
            if exists|m: int| 0 < m < filename@.len() && filename@[m] == '.' && (forall|j: int|
                m < j < filename@.len() ==> filename@[j] != '.') {
                let m = choose|m: int|
                    0 < m < filename@.len() && filename@[m] == '.' && (forall|j: int|
                        m < j < filename@.len() ==> filename@[j] != '.');
                assert(filename@[m] == '.');
            }
        }
        return Option::None;
    }
    proof {
        assert(0 < k < filename@.len() && filename@[k as int] == '.');
        let m = choose|m: int|
            0 < m < filename@.len() && filename@[m] == '.' && (forall|j: int|
                m < j < filename@.len() ==> filename@[j] != '.');
        assert(m == k as int);
    }
    Option::Some(filename.substring_char(k + 1, len))
}

/// Whether the extension spells the lowercase word, ignoring case.
fn matches_ci(ext: &str, word: &str) -> (r: bool)
    ensures
        r == ci_matches(ext@, word@),
{
    let n = ext.unicode_len();
    if n != word.unicode_len() {
        return false;
    }
    for i in 0..n
        invariant
            n == ext@.len(),
            n == word@.len(),
            forall|j: int| 0 <= j < i ==> ci_char(ext@[j], #[trigger] word@[j]),
    {
        let a = ext.get_char(i);
        let b = word.get_char(i);
        let ok = a == b || (b == 'j' && a == 'J') || (b == 'p' && a == 'P') || (b == 'g' && a
            == 'G') || (b == 'e' && a == 'E') || (b == 'n' && a == 'N') || (b == 'i' && a == 'I')
            || (b == 'f' && a == 'F');
        if !ok {
            return false;
        }
    }
    true
}

/// Accept a file name whose extension, if it has one, names an accepted
/// image format; anything else is rejected.
pub fn validate_file_type(filename: &str) -> (r: Result<(), StoreError>)
    ensures
        match r {
            Result::Ok(_) => match spec_extension(filename@) {
                Option::None => true,
                Option::Some(e) => spec_allowed_extension(e),
            },
            Result::Err(err) => {
                &&& err == StoreError::Conflict
                &&& match spec_extension(filename@) {
                    Option::None => false,
                    Option::Some(e) => !spec_allowed_extension(e),
                }
            },
        },
{
    match extension_of(filename) {
        Option::Some(ext) => {
            if matches_ci(ext, "jpg") || matches_ci(ext, "jpeg") || matches_ci(ext, "png")
                || matches_ci(ext, "gif") {
                Result::Ok(())
            } else {
                Result::Err(StoreError::Conflict)
            }
        },
        Option::None => Result::Ok(()),
    }
}

/// The address an uploaded image is read back from.
pub open spec fn spec_read_image_url(tb: Seq<char>, cat: Seq<char>, name: Seq<char>) -> Seq<char> {
    "/api/file/read/"@ + tb + seq!['/'] + cat + seq!['/'] + name
}

/// Build the address an uploaded image is read back from.
pub fn get_read_image_url(req_upload_file: &UploadImageReq, safe_name: &str) -> (r: String)
    ensures
        r@ == spec_read_image_url(
            req_upload_file.textbook_key@,
            req_upload_file.catalog_key@,
            safe_name@,
        ),
{
    let mut out: String = "/api/file/read/".to_owned();
    out.append(req_upload_file.textbook_key.as_str());
    out.append("/");
    out.append(req_upload_file.catalog_key.as_str());
    out.append("/");
    out.append(safe_name);
    proof {
        reveal_strlit("/");
        assert(out@ =~= spec_read_image_url(
            req_upload_file.textbook_key@,
            req_upload_file.catalog_key@,
            safe_name@,
        ));
    }
    out
}

/// The directory a section's images live in.
pub fn image_dir_path(meta_path: &str, textbook_key: &str, catalog_key: &str) -> (r: String)
    ensures
        r@ == spec_section_file(meta_path@, textbook_key@, catalog_key@, IMAGE_NAME@),
{
    section_file_path(meta_path, textbook_key, catalog_key, IMAGE_NAME)
}

/// The path one stored image lives at.
pub fn image_file_path(meta_path: &str, info: &LocalImageInfo) -> (r: String)
    ensures
        r@ == spec_section_file(
            meta_path@,
            info.textbook_key@,
            info.catalog_key@,
            IMAGE_NAME@,
        ) + seq!['/'] + info.filename@,
{
    let mut out = image_dir_path(meta_path, info.textbook_key.as_str(), info.catalog_key.as_str());
    out.append("/");
    out.append(info.filename.as_str());
    proof {
        reveal_strlit("/");
        assert(out@ =~= spec_section_file(
            meta_path@,
            info.textbook_key@,
            info.catalog_key@,
            IMAGE_NAME@,
        ) + seq!['/'] + info.filename@);
    }
    out
}

/// The content type an image is served with, by the suffix after the last
/// dot of its name (the whole name when it has no dot).
pub fn get_content_type(filename: &str) -> (r: &'static str)
    ensures
        r@ == spec_content_type(filename@),
{
    let len = filename.unicode_len();
    let mut k: usize = 0;
    for x in 0..len
        invariant
            len == filename@.len(),
            k <= len,
            0 < k ==> filename@[k - 1] == '.',
            forall|j: int| k <= j < x ==> filename@[j] != '.',
    {
        if filename.get_char(x) == '.' {
            k = x + 1;
        }
    }
    let suffix: &str = filename.substring_char(k, len);
    proof {
        assert(suffix@ =~= spec_suffix_after_dot(filename@));
        reveal_strlit("png");
        reveal_strlit("jpg");
        reveal_strlit("jpeg");
        reveal_strlit("gif");
        reveal_strlit("webp");
        reveal_strlit("svg");
        reveal_strlit("bmp");
        reveal_strlit("ico");
    }
    let owned: String = suffix.to_owned();
    if owned == "png".to_owned() {
        "image/png"
    } else if owned == "jpg".to_owned() || owned == "jpeg".to_owned() {
        "image/jpeg"
    } else if owned == "gif".to_owned() {
        "image/gif"
    } else if owned == "webp".to_owned() {
        "image/webp"
    } else if owned == "svg".to_owned() {
        "image/svg+xml"
    } else if owned == "bmp".to_owned() {
        "image/bmp"
    } else if owned == "ico".to_owned() {
        "image/x-icon"
    } else {
        "application/octet-stream"
    }
}

/// What follows the last dot of a name; the whole name when it has none.
pub open spec fn spec_suffix_after_dot(name: Seq<char>) -> Seq<char> {
    if exists|k: int| 0 <= k < name.len() && name[k] == '.' && (forall|j: int|
        k < j < name.len() ==> name[j] != '.') {
        let k = choose|k: int|
            0 <= k < name.len() && name[k] == '.' && (forall|j: int|
                k < j < name.len() ==> name[j] != '.');
        name.subrange(k + 1, name.len() as int)
    } else {
        name
    }
}

/// The content type an image's name maps to.
pub open spec fn spec_content_type(name: Seq<char>) -> Seq<char> {
    let suffix = spec_suffix_after_dot(name);
    if suffix == "png"@ {
        "image/png"@
    } else if suffix == "jpg"@ || suffix == "jpeg"@ {
        "image/jpeg"@
    } else if suffix == "gif"@ {
        "image/gif"@
    } else if suffix == "webp"@ {
        "image/webp"@
    } else if suffix == "svg"@ {
        "image/svg+xml"@
    } else if suffix == "bmp"@ {
        "image/bmp"@
    } else if suffix == "ico"@ {
        "image/x-icon"@
    } else {
        "application/octet-stream"@
    }
}

} // verus!
