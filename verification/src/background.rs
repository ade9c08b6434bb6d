//! The custom browser background: one image file, copied byte for byte into
//! SCIFI's data directory as `background.<extension>` and served back as is.
use vstd::prelude::*;
use crate::text;

verus! {

/// The content type a background is served as, from its lower-cased file
/// extension.
pub open spec fn content_type_spec(ext: Seq<char>) -> Seq<char> {
    if ext == "jpg"@ || ext == "jpeg"@ {
        "image/jpeg"@
    } else if ext == "png"@ {
        "image/png"@
    } else if ext == "webp"@ {
        "image/webp"@
    } else if ext == "gif"@ {
        "image/gif"@
    } else if ext == "bmp"@ {
        "image/bmp"@
    } else {
        "application/octet-stream"@
    }
}

/// The content type to serve the background as, guessed from its file
/// extension in any letter case; the file itself is never decoded.
pub fn content_type_for_extension(ext: &str) -> (t: &'static str)
    ensures
        t@ == content_type_spec(text::lower_spec(ext@)),
{
    let raw = text::chars_of(ext);
    let e = text::lower(&raw);
    if text::chars_eq_str(&e, "jpg") || text::chars_eq_str(&e, "jpeg") {
        "image/jpeg"
    } else if text::chars_eq_str(&e, "png") {
        "image/png"
    } else if text::chars_eq_str(&e, "webp") {
        "image/webp"
    } else if text::chars_eq_str(&e, "gif") {
        "image/gif"
    } else if text::chars_eq_str(&e, "bmp") {
        "image/bmp"
    } else {
        "application/octet-stream"
    }
}

/// Whether a file in the data directory is the current background.
pub fn is_background_file_name(name: &str) -> (r: bool)
    ensures
        r == text::has_prefix(name@, "background."@),
{
    text::str_starts_with(name, "background.")
}

/// The file name a picked image is stored under: `background.` followed by
/// the source's extension lower-cased, or `img` when it has none.
pub fn background_file_name(ext: Option<&str>) -> (s: String)
    ensures
        s@ == "background."@ + text::lower_spec(
            match ext {
                Some(e) => e@,
                None => "img"@,
            },
        ),
{
    let e = match ext {
        Some(e) => e,
        None => "img",
    };
    let raw = text::chars_of(e);
    let lowered = text::lower(&raw);
    let l = text::string_of(&lowered);
    text::concat("background.", l.as_str())
}

} // verus!
